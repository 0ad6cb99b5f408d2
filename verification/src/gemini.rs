//! Asking Gemini to write a command: the key, the prompt and the reply.
use vstd::prelude::*;
use vstd::string::StringExecFns;
use crate::text::{string_views, trim_text, trimmed};

verus! {

/// Why Gemini could not be asked or did not answer.
#[derive(Debug, Clone, Copy, PartialEq, Eq, Structural)]
pub enum GeminiError {
    /// No API key was found in the environment.
    ApiKeyNotSet,
    /// The request failed or its answer could not be read.
    ResponseUnavailable,
}

impl GeminiError {
    /// The text that describes the error.
    pub fn message(&self) -> (text: String)
        ensures
            *self == GeminiError::ApiKeyNotSet ==> text@ == "GEMINI_API_KEY not set"@,
            *self == GeminiError::ResponseUnavailable ==> text@ == "Response could not be fetched"@,
    {
        match self {
            GeminiError::ApiKeyNotSet => "GEMINI_API_KEY not set".to_owned(),
            GeminiError::ResponseUnavailable => "Response could not be fetched".to_owned(),
        }
    }
}

/// The API key from the value of the `GEMINI_API_KEY` environment variable,
/// `None` when it is not set (or not Unicode).
pub fn fetch_api_key(env_value: Option<String>) -> (key: Result<String, GeminiError>)
    ensures
        env_value matches Some(v) ==> (key matches Ok(k) && k@ == v@),
        env_value is None ==> key == Err::<String, GeminiError>(GeminiError::ApiKeyNotSet),
{
    match env_value {
        Some(v) => Ok(v),
        None => Err(GeminiError::ApiKeyNotSet),
    }
}

/// The key file could not be read; its kind is "not found".
#[derive(Debug, Clone, PartialEq, Eq)]
pub struct KeyFileError {
    /// The text of the read error.
    pub message: String,
}

/// The API key from reading the key file, when the key is kept in a file
/// rather than in the environment: the file's whole text, or the read error's
/// text as a "not found" error.
pub fn fetch_api_key_from_file(read: Result<String, String>) -> (key: Result<String, KeyFileError>)
    ensures
        read matches Ok(text) ==> (key matches Ok(k) && k@ == text@),
        read matches Err(e) ==> (key matches Err(err) && err.message@ == e@),
{
    match read {
        Ok(text) => Ok(text),
        Err(e) => Err(KeyFileError { message: e }),
    }
}

/// The prompt sent to Gemini: the context text without surrounding white
/// space, a space, then what the user typed.
pub open spec fn prompt_text(context: Seq<char>, request: Seq<char>) -> Seq<char> {
    trimmed(context) + seq![' '] + request
}

/// Builds the prompt from the context file's text and the user's request.
pub fn build_prompt(context: &str, request: &str) -> (prompt: String)
    ensures
        prompt@ == prompt_text(context@, request@),
{
    let mut prompt = trim_text(context);
    prompt.append(" ");
    prompt.append(request);
    proof {
        reveal_strlit(" ");
    }
    prompt
}

/// The parts of a reply, one after the other.
pub open spec fn concatenated(parts: Seq<Seq<char>>) -> Seq<char>
    decreases parts.len(),
{
    if parts.len() == 0 {
        seq![]
    } else {
        concatenated(parts.drop_last()) + parts.last()
    }
}

/// Joins the parts of Gemini's reply into one text.
pub fn join_response(parts: &Vec<String>) -> (text: String)
    ensures
        text@ == concatenated(string_views(parts@)),
{
    let mut text = String::new();
    let mut i: usize = 0;
    assert(string_views(parts@).take(0) =~= Seq::<Seq<char>>::empty());
    while i < parts.len()
        invariant
            i <= parts@.len(),
            text@ == concatenated(string_views(parts@).take(i as int)),
        decreases parts@.len() - i,
    {
        let ghost next = string_views(parts@).take(i + 1);
        assert(next.drop_last() =~= string_views(parts@).take(i as int));
        text.append(parts[i].as_str());
        i += 1;
    }
    assert(string_views(parts@).take(parts@.len() as int) =~= string_views(parts@));
    text
}

/// The answer to show from Gemini's reply: its parts joined, or an error when
/// there was no reply.
pub fn gemini_reply(reply: Option<Vec<String>>) -> (answer: Result<String, GeminiError>)
    ensures
        reply matches Some(parts) ==> (answer matches Ok(text) && text@ == concatenated(
            string_views(parts@),
        )),
        reply is None ==> answer == Err::<String, GeminiError>(GeminiError::ResponseUnavailable),
{
    match reply {
        Some(parts) => Ok(join_response(&parts)),
        None => Err(GeminiError::ResponseUnavailable),
    }
}

/// The total number of characters in `parts`.
pub open spec fn total_length(parts: Seq<Seq<char>>) -> int
    decreases parts.len(),
{
    if parts.len() == 0 {
        0
    } else {
        total_length(parts.drop_first()) + parts[0].len()
    }
}

/// Joining a reply puts its parts one after the other, exactly as they are:
/// one part comes out unchanged, no part gives nothing, joining two lists of
/// parts is joining the first and then the second, and the length is the
/// sum of the parts' lengths.
pub proof fn lemma_concatenated_is_plain_join(ps: Seq<Seq<char>>, qs: Seq<Seq<char>>, p: Seq<char>)
    ensures
        concatenated(seq![p]) == p,
        concatenated(Seq::<Seq<char>>::empty()) == Seq::<char>::empty(),
        concatenated(ps + qs) == concatenated(ps) + concatenated(qs),
        concatenated(ps).len() == total_length(ps),
    decreases qs.len(),
{
    assert(seq![p].drop_last() =~= Seq::<Seq<char>>::empty());
    assert(concatenated(Seq::<Seq<char>>::empty()) =~= Seq::<char>::empty());
    assert(seq![p].last() == p);
    assert(concatenated(seq![p]) =~= p);
    if qs.len() == 0 {
        assert(ps + qs =~= ps);
        assert(concatenated(ps) + concatenated(qs) =~= concatenated(ps));
    } else {
        lemma_concatenated_is_plain_join(ps, qs.drop_last(), p);
        assert((ps + qs).drop_last() =~= ps + qs.drop_last());
        assert((ps + qs).last() == qs.last());
        assert(concatenated(ps + qs) =~= concatenated(ps) + concatenated(qs));
    }
    lemma_concatenated_length(ps);
}

proof fn lemma_concatenated_length(ps: Seq<Seq<char>>)
    ensures
        concatenated(ps).len() == total_length(ps),
    decreases ps.len(),
{
    if ps.len() > 0 {
        lemma_concatenated_length(ps.drop_first());
        lemma_concatenated_front(ps);
    }
}

proof fn lemma_concatenated_front(ps: Seq<Seq<char>>)
    requires
        ps.len() > 0,
    ensures
        concatenated(ps) == ps[0] + concatenated(ps.drop_first()),
    decreases ps.len(),
{
    if ps.len() == 1 {
        assert(ps.drop_last() =~= Seq::<Seq<char>>::empty());
        assert(ps.drop_first() =~= Seq::<Seq<char>>::empty());
        assert(concatenated(ps) =~= ps[0] + concatenated(ps.drop_first()));
    } else {
        lemma_concatenated_front(ps.drop_last());
        assert(ps.drop_last().drop_first() =~= ps.drop_first().drop_last());
        assert(ps.drop_first().last() == ps.last());
        assert(concatenated(ps) =~= ps[0] + concatenated(ps.drop_first()));
    }
}

} // verus!

//! Opening the task of a G-key.
use vstd::prelude::*;

verus! {

/// A letter, a digit, a hyphen or an underscore.
pub open spec fn is_plain_char(c: char) -> bool {
    ||| 'a' <= c <= 'z'
    ||| 'A' <= c <= 'Z'
    ||| '0' <= c <= '9'
    ||| c == '-'
    ||| c == '_'
}

/// The name of a task can stand in a link as it is.
pub open spec fn is_plain_id(session: Seq<char>) -> bool {
    session.len() > 0 && forall|i: int|
        0 <= i < session.len() ==> is_plain_char(#[trigger] session[i])
}

/// The link to a task.
pub open spec fn thread_url(session: Seq<char>) -> Seq<char> {
    "codex://threads/"@ + session
}

/// The link to a task, where its name can stand in one.
pub fn codex_thread_url(session_id: &str) -> (r: Option<String>)
    ensures
        match r {
            Some(url) => is_plain_id(session_id@) && url@ == thread_url(session_id@),
            None => !is_plain_id(session_id@),
        },
{
    let count: usize = session_id.unicode_len();
    if count == 0 {
        return None;
    }
    let mut i: usize = 0;
    while i < count
        invariant
            count == session_id@.len(),
            i <= count,
            forall|j: int| 0 <= j < i ==> is_plain_char(#[trigger] session_id@[j]),
        decreases count - i,
    {
        let c: char = session_id.get_char(i);
        if !(('a' <= c && c <= 'z') || ('A' <= c && c <= 'Z') || ('0' <= c && c <= '9') || c == '-'
            || c == '_') {
            assert(!is_plain_char(session_id@[i as int]));
            return None;
        }
        i += 1;
    }
    let mut url: String = "codex://threads/".to_owned();
    url.append(session_id);
    Some(url)
}

/// What to tell `open` to bring a task to the front.
pub fn codex_open_arguments(session_id: &str) -> (r: Option<Vec<String>>)
    ensures
        match r {
            Some(arguments) => is_plain_id(session_id@) && arguments@.map_values(|a: String| a@)
                == seq!["-b"@, "com.openai.codex"@, thread_url(session_id@)],
            None => !is_plain_id(session_id@),
        },
{
    match codex_thread_url(session_id) {
        Some(url) => {
            let arguments: Vec<String> = vec!["-b".to_owned(), "com.openai.codex".to_owned(), url];
            assert(arguments@.map_values(|a: String| a@) =~= seq![
                "-b"@,
                "com.openai.codex"@,
                thread_url(session_id@),
            ]);
            Some(arguments)
        },
        None => None,
    }
}

/// Two tasks have two links.
pub proof fn law_links_tell_tasks_apart(a: Seq<char>, b: Seq<char>)
    requires
        thread_url(a) == thread_url(b),
    ensures
        a == b,
{
    let start = "codex://threads/"@;
    assert(thread_url(a).skip(start.len() as int) =~= a);
    assert(thread_url(b).skip(start.len() as int) =~= b);
}

} // verus!

//! `lua <code>`: the sandbox rules of the evaluator and the report of a run.

use vstd::prelude::*;
use vstd::utf8::decode_utf8;
use crate::embed::{block_field, fields_view, Embed};
use crate::text::{byte_range, char_boundary, join, join_strings, slice_allowed, utf8};

verus! {

/// The functions of the `os` library taken out of the sandbox.
pub open spec fn removed_os_functions() -> Seq<Seq<char>> {
    seq!["execute"@, "exit"@, "getenv"@, "remove"@, "rename"@, "setlocale"@, "tmpname"@]
}

/// The globals taken out of the sandbox.
pub open spec fn removed_globals() -> Seq<Seq<char>> {
    seq!["io"@, "debug"@, "dofile"@, "load"@, "collectgarbage"@, "require"@, "loadfile"@, "package"@]
}

/// The `os` functions that the sandbox removes, in the order it removes them.
pub fn sandbox_os_functions() -> (res: Vec<String>)
    ensures
        res.deep_view() == removed_os_functions(),
{
    let res = vec![
        String::from_str("execute"),
        String::from_str("exit"),
        String::from_str("getenv"),
        String::from_str("remove"),
        String::from_str("rename"),
        String::from_str("setlocale"),
        String::from_str("tmpname"),
    ];
    assert(res.deep_view() =~= removed_os_functions());
    res
}

/// The globals that the sandbox removes, in the order it removes them.
pub fn sandbox_globals() -> (res: Vec<String>)
    ensures
        res.deep_view() == removed_globals(),
{
    let res = vec![
        String::from_str("io"),
        String::from_str("debug"),
        String::from_str("dofile"),
        String::from_str("load"),
        String::from_str("collectgarbage"),
        String::from_str("require"),
        String::from_str("loadfile"),
        String::from_str("package"),
    ];
    assert(res.deep_view() =~= removed_globals());
    res
}

/// Whether a run has used up its time: more than 30 seconds have passed
/// since it started (`elapsed` given as whole seconds and nanoseconds).
pub fn instruction_time_exceeded(secs: u64, nanos: u32) -> (res: bool)
    ensures
        res == (secs > 30 || (secs == 30 && nanos > 0)),
{
    secs > 30 || (secs == 30 && nanos > 0)
}

/// A line printed by the script: `[out]: ` and the printed values separated
/// by spaces.
pub fn print_line(values: &Vec<String>) -> (res: String)
    ensures
        res@ == "[out]: "@ + join(values.deep_view(), " "@),
{
    let mut line = String::from_str("[out]: ");
    let j = join_strings(values, " ");
    line.append(j.as_str());
    line
}

/// A line raised through `error`: `[err]: ` and the strings separated by
/// spaces.
pub fn error_line(values: &Vec<String>) -> (res: String)
    ensures
        res@ == "[err]: "@ + join(values.deep_view(), " "@),
{
    let mut line = String::from_str("[err]: ");
    let j = join_strings(values, " ");
    line.append(j.as_str());
    line
}

/// What the evaluation itself reports: "No errors." or the error's text.
pub fn eval_status(error: Option<String>) -> (res: String)
    ensures
        res@ == match error {
            Some(e) => e@,
            None => "No errors."@,
        },
{
    match error {
        Some(e) => e,
        None => String::from_str("No errors."),
    }
}

/// The output and the error text of a run, before clipping: the printed
/// lines (or "No output") and the `error` lines, one per line; or, when the
/// sandbox itself failed, empty output and the failure's text.
pub open spec fn run_texts(run: Result<(Seq<Seq<char>>, Seq<Seq<char>>, Seq<char>), Seq<char>>) -> (Seq<char>, Seq<char>) {
    match run {
        Ok((out, err, eval)) => {
            let shown = if out.len() == 0 { seq!["No output"@] } else { out };
            (join(shown, "\n"@) + "\n"@ + join(err, "\n"@), eval)
        },
        Err(why) => ("\n"@, why),
    }
}

/// The view of a run as the sandbox reports it.
pub open spec fn run_view(run: Result<(Vec<String>, Vec<String>, String), String>) -> Result<
    (Seq<Seq<char>>, Seq<Seq<char>>, Seq<char>),
    Seq<char>,
> {
    match run {
        Ok((out, err, eval)) => Ok((out.deep_view(), err.deep_view(), eval@)),
        Err(why) => Err(why@),
    }
}

/// Combines what a run printed and raised into the output text and the
/// error text.
pub fn run_report(run: Result<(Vec<String>, Vec<String>, String), String>) -> (res: (String, String))
    ensures
        (res.0@, res.1@) == run_texts(run_view(run)),
{
    let ghost rv = run_view(run);
    match run {
        Ok((out, err, eval)) => {
            let shown = if out.len() == 0 {
                vec![String::from_str("No output")]
            } else {
                out
            };
            assert(shown.deep_view() == (if rv->Ok_0.0.len() == 0 { seq!["No output"@] } else { rv->Ok_0.0 })) by {
                if rv->Ok_0.0.len() == 0 {
                    assert(shown.deep_view() =~= seq!["No output"@]);
                }
            }
            let mut comb = join_strings(&shown, "\n");
            comb.append("\n");
            let e = join_strings(&err, "\n");
            comb.append(e.as_str());
            (comb, eval)
        },
        Err(why) => (String::from_str("\n"), why),
    }
}

/// Whether a text can be clipped: it is at most 1500 bytes long, or bytes 1
/// and 1500 start characters.
pub open spec fn clippable(s: Seq<char>) -> bool {
    utf8(s).len() > 1500 ==> char_boundary(s, 1) && char_boundary(s, 1500)
}

/// A text as it is shown: bytes `1..1500` of a text longer than 1500 bytes,
/// else the whole text.
pub open spec fn clipped(s: Seq<char>) -> Seq<char> {
    if utf8(s).len() > 1500 {
        decode_utf8(utf8(s).subrange(1, 1500))
    } else {
        s
    }
}

/// Whether `clip` may be applied to the text.
pub fn can_clip(s: &str) -> (res: bool)
    ensures
        res == clippable(s@),
{
    s.as_bytes().len() <= 1500 || slice_allowed(s, 1, 1500)
}

/// Clips a text to what an embed field shows: never more than 1500 bytes.
pub fn clip(s: &str) -> (res: String)
    requires
        clippable(s@),
    ensures
        res@ == clipped(s@),
        utf8(res@).len() <= 1500,
{
    if s.as_bytes().len() > 1500 {
        byte_range(s, 1, 1500)
    } else {
        s.to_owned()
    }
}

/// The embed reporting a run to its author.
pub fn eval_embed(author: &str, output: String, errors: String) -> (e: Embed)
    ensures
        e.title@ == "Code Eval for "@ + author@,
        e.description is None,
        fields_view(e.fields@) == seq![("Eval"@, output@, false), ("Errors"@, errors@, false)],
{
    let ghost o = output@;
    let ghost r = errors@;
    let mut title = String::from_str("Code Eval for ");
    title.append(author);
    let fields = vec![block_field(String::from_str("Eval"), output), block_field(String::from_str("Errors"), errors)];
    let e = Embed { title, description: None, fields };
    assert(fields_view(e.fields@) =~= seq![("Eval"@, o, false), ("Errors"@, r, false)]);
    e
}


/// Every error line a script raised is shown, whether or not it printed
/// anything: the output text ends with the error lines (one per line),
/// after a line break that follows what was printed (or "No output"); the
/// error text is the evaluation's own status.
pub proof fn lemma_errors_always_reported(out: Seq<Seq<char>>, err: Seq<Seq<char>>, eval: Seq<char>)
    ensures
        ({
            let t = run_texts(Ok((out, err, eval))).0;
            let e = join(err, "\n"@);
            let p = join(if out.len() == 0 { seq!["No output"@] } else { out }, "\n"@);
            &&& t.len() == p.len() + 1 + e.len()
            &&& t.subrange(t.len() - e.len(), t.len() as int) == e
            &&& t[p.len() as int] == '\n'
            &&& t.subrange(0, p.len() as int) == p
            &&& out.len() > 0 ==> t.subrange(0, join(out, "\n"@).len() as int) == join(out, "\n"@)
        }),
        run_texts(Ok((out, err, eval))).1 == eval,
{
    reveal_strlit("\n");
    let t = run_texts(Ok((out, err, eval))).0;
    let e = join(err, "\n"@);
    let p = join(if out.len() == 0 { seq!["No output"@] } else { out }, "\n"@);
    assert(t == p + seq!['\n'] + e);
    assert(t.subrange(t.len() - e.len(), t.len() as int) =~= e);
    assert(t.subrange(0, p.len() as int) =~= p);
}

} // verus!

//! The boundary to the device bridge: how a finished bridge process is
//! judged, and the step type through which the library's device operations
//! ask for bridge commands.
//!
//! Every device operation of this library is a pure function of the replies
//! received so far: it returns either the next bridge command to run or its
//! result. Whoever drives it runs the command and calls it again with one
//! more reply.
use vstd::prelude::*;
use vstd::string::StringExecFns;
use crate::text::{
    chars_of, string_of, trim, trimmed, contains, contains_exec, append_chars, string_views,
};

verus! {

/// What `str::to_lowercase` returns for `s`.
pub uninterp spec fn lower_of(s: Seq<char>) -> Seq<char>;

/// Relies on `str::to_lowercase`: its result depends on the characters alone.
#[verifier::external_body]
fn to_lower(s: &str) -> (r: String)
    ensures
        r@ == lower_of(s@),
{
    s.to_lowercase()
}

/// A bridge reply: the command's output, or a description of its failure.
pub type Reply = Result<String, String>;

pub open spec fn reply_view(r: Reply) -> Result<Seq<char>, Seq<char>> {
    match r {
        Ok(s) => Ok(s@),
        Err(e) => Err(e@),
    }
}

/// What a device operation asks for next.
pub enum Step<T> {
    /// Run the bridge with these arguments and report the reply.
    Run(Vec<String>),
    /// The operation is over, with this result.
    Done(T),
}

/// The text markers by which the bridge reports a failure in its output
/// while exiting successfully.
pub open spec fn has_error_marker(lower: Seq<char>) -> bool {
    contains(lower, "permission denied"@) || contains(lower, "not found"@) || contains(
        lower,
        "failed to"@,
    ) || contains(lower, "error:"@)
}

pub open spec fn is_shell_command(args: Seq<Seq<char>>) -> bool {
    exists|i: int| 0 <= i < args.len() && args[i] == "shell"@
}

/// How a finished bridge process is judged, given its lower-cased output:
/// a failing exit status, or an error marker in the output, fails it; in a
/// shell command a bare "not found" or "permission denied" is tolerated
/// unless "error:" is present too.
pub open spec fn judged(
    is_shell: bool,
    exit_ok: bool,
    stdout: Seq<char>,
    lower: Seq<char>,
    stderr: Seq<char>,
) -> Result<Seq<char>, Seq<char>> {
    if !exit_ok {
        Err("ADB Command Failed: "@ + trim(stderr))
    } else if has_error_marker(lower) && (!is_shell || contains(lower, "error:"@)) {
        Err("ADB Internal Error: "@ + trim(stdout))
    } else {
        Ok(stdout)
    }
}

/// A string holding the characters of `s`.
pub fn owned(s: &str) -> (r: String)
    ensures
        r@ == s@,
{
    String::from_str(s)
}

/// `prefix` followed by `s` trimmed.
fn prefixed_trimmed(prefix: &str, s: &str) -> (r: String)
    ensures
        r@ == prefix@ + trim(s@),
{
    let mut out = chars_of(prefix);
    let v = chars_of(s);
    let t = trimmed(&v, 0, v.len());
    assert(v@.subrange(0, v.len() as int) =~= v@);
    append_chars(&mut out, &t);
    string_of(out.as_slice())
}

pub fn is_shell_exec(args: &Vec<String>) -> (r: bool)
    ensures
        r == is_shell_command(string_views(args@)),
{
    let shell = owned("shell");
    let mut i: usize = 0;
    while i < args.len()
        invariant
            i <= args.len(),
            shell@ == "shell"@,
            forall|j: int| 0 <= j < i ==> args@[j]@ != "shell"@,
        decreases args.len() - i,
    {
        if args[i] == shell {
            assert(string_views(args@)[i as int] == "shell"@);
            return true;
        }
        i = i + 1;
    }
    assert forall|j: int| 0 <= j < string_views(args@).len() implies string_views(args@)[j]
        != "shell"@ by {
        assert(string_views(args@)[j] == args@[j]@);
    }
    false
}

/// Judges a finished bridge process from its output and the lower-cased
/// form of that output.
pub fn judge_lowered(
    args: &Vec<String>,
    exit_ok: bool,
    stdout: &str,
    lower: &str,
    stderr: &str,
) -> (r: Reply)
    ensures
        reply_view(r) == judged(
            is_shell_command(string_views(args@)),
            exit_ok,
            stdout@,
            lower@,
            stderr@,
        ),
{
    if !exit_ok {
        return Err(prefixed_trimmed("ADB Command Failed: ", stderr));
    }
    let l = chars_of(lower);
    let error_marker = chars_of("error:");
    let has_error = contains_exec(&l, &error_marker);
    let marked = contains_exec(&l, &chars_of("permission denied")) || contains_exec(
        &l,
        &chars_of("not found"),
    ) || contains_exec(&l, &chars_of("failed to")) || has_error;
    if marked && (!is_shell_exec(args) || has_error) {
        Err(prefixed_trimmed("ADB Internal Error: ", stdout))
    } else {
        Ok(String::from_str(stdout))
    }
}

/// Judges a finished bridge process run with `args` from its exit status
/// and its output streams.
pub fn judge_output(args: &Vec<String>, exit_ok: bool, stdout: &str, stderr: &str) -> (r: Reply)
    ensures
        reply_view(r) == judged(
            is_shell_command(string_views(args@)),
            exit_ok,
            stdout@,
            lower_of(stdout@),
            stderr@,
        ),
{
    let lower = to_lower(stdout);
    judge_lowered(args, exit_ok, stdout, lower.as_str(), stderr)
}

/// `["-s", device_id]` followed by `rest`.
pub fn bridge_args(device_id: &String, rest: Vec<String>) -> (r: Vec<String>)
    ensures
        string_views(r@) == seq!["-s"@, device_id@] + string_views(rest@),
{
    let mut r: Vec<String> = Vec::new();
    r.push(owned("-s"));
    r.push(device_id.clone());
    let mut i: usize = 0;
    assert(string_views(r@) =~= seq!["-s"@, device_id@] + string_views(rest@).take(0));
    while i < rest.len()
        invariant
            i <= rest.len(),
            string_views(r@) == seq!["-s"@, device_id@] + string_views(rest@).take(i as int),
        decreases rest.len() - i,
    {
        let ghost before = r@;
        r.push(rest[i].clone());
        assert(string_views(r@) =~= string_views(before).push(rest@[i as int]@));
        assert(string_views(rest@).take(i + 1) =~= string_views(rest@).take(i as int).push(
            rest@[i as int]@,
        ));
        i = i + 1;
    }
    assert(string_views(rest@).take(rest.len() as int) =~= string_views(rest@));
    r
}

pub fn strings3(a: String, b: String, c: String) -> (r: Vec<String>)
    ensures
        string_views(r@) == seq![a@, b@, c@],
{
    let mut r: Vec<String> = Vec::new();
    r.push(a);
    r.push(b);
    r.push(c);
    assert(string_views(r@) =~= seq![a@, b@, c@]);
    r
}

pub fn strings4(a: String, b: String, c: String, d: String) -> (r: Vec<String>)
    ensures
        string_views(r@) == seq![a@, b@, c@, d@],
{
    let mut r: Vec<String> = Vec::new();
    r.push(a);
    r.push(b);
    r.push(c);
    r.push(d);
    assert(string_views(r@) =~= seq![a@, b@, c@, d@]);
    r
}

pub fn strings5(a: String, b: String, c: String, d: String, e: String) -> (r: Vec<String>)
    ensures
        string_views(r@) == seq![a@, b@, c@, d@, e@],
{
    let mut r: Vec<String> = Vec::new();
    r.push(a);
    r.push(b);
    r.push(c);
    r.push(d);
    r.push(e);
    assert(string_views(r@) =~= seq![a@, b@, c@, d@, e@]);
    r
}

pub fn strings6(a: String, b: String, c: String, d: String, e: String, f: String) -> (r: Vec<String>)
    ensures
        string_views(r@) == seq![a@, b@, c@, d@, e@, f@],
{
    let mut r: Vec<String> = Vec::new();
    r.push(a);
    r.push(b);
    r.push(c);
    r.push(d);
    r.push(e);
    r.push(f);
    assert(string_views(r@) =~= seq![a@, b@, c@, d@, e@, f@]);
    r
}

} // verus!

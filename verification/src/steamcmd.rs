//! The `/update` command: checking SteamCMD arguments, locating its files,
//! and writing up how a run went.

use vstd::prelude::*;
use crate::paths::{joined, parent, path_join, path_parent};
use crate::numfmt::ten_pow;
use crate::text::{
    clip, clip_chars, decimal, digit, join, join_strings, owned, push_decimal, push_signed,
    push_str, signed_decimal, split_words, str_eq, views, words,
};

verus! {

/// How long SteamCMD may run, in seconds, unless `STEAMCMD_TIMEOUT_SECS` says otherwise.
pub const DEFAULT_TIMEOUT_SECS: u64 = 1800;

/// The longest echo of an invocation a report shows, in characters.
pub const MAX_INVOCATION_DISPLAY: usize = 1500;

/// The arguments of an `/update` request: its whitespace-separated words.
pub fn update_arguments(arguments: &str) -> (args: Vec<String>)
    ensures
        views(args@) == words(arguments@),
{
    split_words(arguments)
}

/// Why a SteamCMD argument list must be refused, if it must.
///
/// `+quit` is required because without it SteamCMD waits for interactive input
/// and never exits on its own.
pub open spec fn refusal(args: Seq<Seq<char>>) -> Option<Seq<char>> {
    if args.len() == 0 {
        Some(
            "No arguments given. SteamCMD needs at least `+quit`, or it will sit waiting for interactive input forever."@,
        )
    } else if !args.contains("+quit"@) {
        Some(
            "Missing `+quit`. Without it SteamCMD drops into an interactive prompt and never exits on its own \u{2014} add `+quit` at the end."@,
        )
    } else {
        None
    }
}

/// The view of an optional string slice.
pub open spec fn opt_str(o: Option<&str>) -> Option<Seq<char>> {
    match o {
        Some(s) => Some(s@),
        None => None,
    }
}

/// Rejects the request before touching the filesystem or spawning anything.
pub fn invalid_reason(args: &Vec<String>) -> (r: Option<&'static str>)
    ensures
        opt_str(r) == refusal(views(args@)),
{
    if args.len() == 0 {
        return Some(
            "No arguments given. SteamCMD needs at least `+quit`, or it will sit waiting for interactive input forever.",
        );
    }
    let mut i: usize = 0;
    while i < args.len()
        invariant
            i <= args@.len(),
            forall|k: int| 0 <= k < i ==> views(args@)[k] != "+quit"@,
        decreases args@.len() - i,
    {
        if str_eq(args[i].as_str(), "+quit") {
            assert(views(args@)[i as int] == "+quit"@);
            assert(views(args@).contains("+quit"@));
            return None;
        }
        i = i + 1;
    }
    assert(!views(args@).contains("+quit"@));
    Some(
        "Missing `+quit`. Without it SteamCMD drops into an interactive prompt and never exits on its own \u{2014} add `+quit` at the end.",
    )
}

// ---------------------------------------------------------------------------
// Timeout
// ---------------------------------------------------------------------------

/// `c` is an ASCII digit.
pub open spec fn is_digit(c: char) -> bool {
    '0' <= c <= '9'
}

/// The number the digits of `s` spell.
pub open spec fn digits_value(s: Seq<char>) -> nat
    decreases s.len(),
{
    if s.len() == 0 {
        0
    } else {
        10 * digits_value(s.drop_last()) + ((s.last() as u32) - 48) as nat
    }
}

/// `s` without a leading `+`.
pub open spec fn unsigned_digits(s: Seq<char>) -> Seq<char> {
    if s.len() > 0 && s[0] == '+' {
        s.drop_first()
    } else {
        s
    }
}

/// Every character of `d` is an ASCII digit.
pub open spec fn all_digits(d: Seq<char>) -> bool {
    forall|i: int| 0 <= i < d.len() ==> is_digit(#[trigger] d[i])
}

/// What `str::parse::<u64>` gives: an optional `+`, then one or more ASCII
/// digits whose value fits in a `u64`.
pub open spec fn parse_u64(s: Seq<char>) -> Option<nat> {
    let d = unsigned_digits(s);
    if d.len() == 0 || !all_digits(d) {
        None
    } else if digits_value(d) > u64::MAX {
        None
    } else {
        Some(digits_value(d))
    }
}

/// `s` parsed as a `u64`, as `str::parse` does it.
pub fn parse_u64_exec(s: &str) -> (r: Option<u64>)
    ensures
        match r {
            Some(n) => parse_u64(s@) == Some(n as nat),
            None => parse_u64(s@) is None,
        },
{
    let v = crate::text::to_chars(s);
    let start: usize = if v.len() > 0 && v[0] == '+' {
        1
    } else {
        0
    };
    let ghost d = unsigned_digits(s@);
    assert(d =~= v@.skip(start as int));
    if start == v.len() {
        return None;
    }
    let mut value: u64 = 0;
    let mut i: usize = start;
    assert(v@.subrange(start as int, start as int) =~= Seq::<char>::empty());
    while i < v.len()
        invariant
            start <= i <= v@.len(),
            v@ == s@,
            start < v@.len(),
            d == unsigned_digits(s@),
            d == v@.skip(start as int),
            value as nat == digits_value(v@.subrange(start as int, i as int)),
            forall|k: int| start <= k < i ==> is_digit(v@[k]),
        decreases v@.len() - i,
    {
        let c = v[i];
        let ghost prefix = v@.subrange(start as int, (i + 1) as int);
        assert(prefix.drop_last() =~= v@.subrange(start as int, i as int));
        if !('0' <= c && c <= '9') {
            assert(!is_digit(d[i - start]));
            assert(!all_digits(d));
            return None;
        }
        let digit = (c as u32 - 48) as u64;
        if value > (u64::MAX - digit) / 10 {
            proof {
                assert(prefix.last() == c);
                assert(digits_value(prefix) == 10 * value + digit);
                assert(10 * value + digit > u64::MAX) by (nonlinear_arith)
                    requires
                        value > (u64::MAX - digit) / 10,
                        digit <= 9,
                ;
                assert(d.take(prefix.len() as int) =~= prefix);
                assert forall|k: int| 0 <= k < prefix.len() implies is_digit(#[trigger] prefix[k]) by {
                    assert(prefix[k] == v@[start + k]);
                }
                assert(all_digits(prefix));
                lemma_digits_value_grows(prefix, d);
                assert(!all_digits(d) || digits_value(d) > u64::MAX);
            }
            return None;
        }
        value = value * 10 + digit;
        i = i + 1;
    }
    assert(v@.subrange(start as int, v@.len() as int) =~= d);
    Some(value)
}

/// Extending a run of digits never lowers its value.
proof fn lemma_digits_value_grows(prefix: Seq<char>, whole: Seq<char>)
    requires
        prefix.len() <= whole.len(),
        whole.take(prefix.len() as int) == prefix,
        all_digits(prefix),
        prefix.len() > 0,
        digits_value(prefix) > u64::MAX,
    ensures
        !all_digits(whole) || digits_value(whole) > u64::MAX,
    decreases whole.len() - prefix.len(),
{
    if whole.len() > prefix.len() && all_digits(whole) {
        let longer = whole.take((prefix.len() + 1) as int);
        assert(longer.drop_last() =~= prefix);
        assert(is_digit(longer.last()));
        assert(digits_value(longer) >= digits_value(prefix));
        assert(whole.take(longer.len() as int) =~= longer);
        lemma_digits_value_grows(longer, whole);
    } else if whole.len() == prefix.len() {
        assert(whole =~= prefix);
    }
}

/// How long SteamCMD may run: `STEAMCMD_TIMEOUT_SECS` when it holds a number,
/// else the default.
pub open spec fn timeout_for(var: Option<Seq<char>>) -> nat {
    match var {
        Some(v) => match parse_u64(v) {
            Some(n) => n,
            None => DEFAULT_TIMEOUT_SECS as nat,
        },
        None => DEFAULT_TIMEOUT_SECS as nat,
    }
}

/// How long SteamCMD may run, in seconds, given `STEAMCMD_TIMEOUT_SECS`.
pub fn timeout_secs(var: Option<String>) -> (secs: u64)
    ensures
        secs as nat == timeout_for(crate::text::opt_view(var)),
{
    match var {
        Some(v) => match parse_u64_exec(v.as_str()) {
            Some(n) => n,
            None => DEFAULT_TIMEOUT_SECS,
        },
        None => DEFAULT_TIMEOUT_SECS,
    }
}

/// The notice posted before SteamCMD starts.
pub open spec fn running_notice_text(secs: nat) -> Seq<char> {
    "Running SteamCMD (killed if it runs past "@ + decimal(secs / 60) + " minutes)\u{2026}"@
}

/// The notice posted before SteamCMD starts.
pub fn running_notice(secs: u64) -> (s: String)
    ensures
        s@ == running_notice_text(secs as nat),
{
    let mut s = owned("Running SteamCMD (killed if it runs past ");
    push_decimal(&mut s, (secs / 60) as u128);
    push_str(&mut s, " minutes)\u{2026}");
    s
}

// ---------------------------------------------------------------------------
// Files
// ---------------------------------------------------------------------------

/// Where SteamCMD lives when `STEAMCMD_PATH` is unset: `steamcmd/steamcmd.exe`
/// on the desktop.
pub fn default_steamcmd_path(desktop: &str, windows: bool) -> (p: String)
    ensures
        p@ == joined(joined(desktop@, "steamcmd"@, windows), "steamcmd.exe"@, windows),
{
    let dir = path_join(desktop, "steamcmd", windows);
    path_join(dir.as_str(), "steamcmd.exe", windows)
}

/// What `validate_executable` answers for `path`.
pub open spec fn executable_check(path: Seq<char>, exists: bool, is_file: bool) -> Result<
    Seq<char>,
    Seq<char>,
> {
    if !exists {
        Err(
            "SteamCMD not found at "@ + path
                + ". Set STEAMCMD_PATH, or place it at Desktop/steamcmd/steamcmd.exe."@,
        )
    } else if !is_file {
        Err(path + " is not a file."@)
    } else {
        Ok(path)
    }
}

/// The view of a string result.
pub open spec fn result_view(r: Result<String, String>) -> Result<Seq<char>, Seq<char>> {
    match r {
        Ok(s) => Ok(s@),
        Err(e) => Err(e@),
    }
}

/// Accepts `path` as the SteamCMD executable only if it exists and is a file.
pub fn validate_executable(path: String, exists: bool, is_file: bool) -> (r: Result<String, String>)
    ensures
        result_view(r) == executable_check(path@, exists, is_file),
{
    if !exists {
        let mut e = owned("SteamCMD not found at ");
        push_str(&mut e, path.as_str());
        push_str(&mut e, ". Set STEAMCMD_PATH, or place it at Desktop/steamcmd/steamcmd.exe.");
        return Err(e);
    }
    if !is_file {
        let mut e = owned(path.as_str());
        push_str(&mut e, " is not a file.");
        return Err(e);
    }
    Ok(path)
}

/// Where SteamCMD keeps its own console log: `logs/console_log.txt` beside the
/// executable.
pub open spec fn console_log_location(exe: Seq<char>, windows: bool) -> Seq<char> {
    let dir = match parent(exe, windows) {
        Some(d) => d,
        None => "."@,
    };
    joined(joined(dir, "logs"@, windows), "console_log.txt"@, windows)
}

/// Where SteamCMD keeps its own console log: `logs/console_log.txt` beside the
/// executable.
pub fn console_log_path(exe: &str, windows: bool) -> (p: String)
    ensures
        p@ == console_log_location(exe@, windows),
{
    let dir = match path_parent(exe, windows) {
        Some(d) => d,
        None => owned("."),
    };
    let logs = path_join(dir.as_str(), "logs", windows);
    path_join(logs.as_str(), "console_log.txt", windows)
}

// ---------------------------------------------------------------------------
// The report
// ---------------------------------------------------------------------------

/// An invocation clipped for display.
pub fn truncate_invocation(invocation: &str) -> (s: String)
    ensures
        s@ == clip(invocation@, MAX_INVOCATION_DISPLAY as nat),
{
    clip_chars(invocation, MAX_INVOCATION_DISPLAY)
}

/// What came of trying to run SteamCMD.
pub enum Outcome {
    /// It ran and exited, with this exit code unless a signal ended it.
    Ran { code: Option<i32>, stdout: Vec<u8>, stderr: Vec<u8> },
    /// It ran past the timeout and was killed.
    TimedOut,
    /// It could not be started, for this reason.
    FailedToStart(String),
}

/// A file to attach to the report.
pub struct Attachment {
    pub name: &'static str,
    pub bytes: Vec<u8>,
}

/// The final report of an `/update` run.
pub struct Report {
    pub content: String,
    pub files: Vec<Attachment>,
}

/// How the process ended.
pub open spec fn status_text(code: Option<i32>) -> Seq<char> {
    match code {
        Some(c) => if c == 0 {
            "finished successfully"@
        } else {
            "exited with code "@ + signed_decimal(c as int)
        },
        None => "was terminated by a signal"@,
    }
}

/// The status line of the report.
pub open spec fn report_text(invocation: Seq<char>, outcome: Outcome) -> Seq<char> {
    match outcome {
        Outcome::TimedOut => "SteamCMD (`"@ + invocation
            + "`) did not finish and was killed after timing out."@,
        Outcome::FailedToStart(e) => "Could not start SteamCMD (`"@ + invocation + "`): "@ + e@,
        Outcome::Ran { code, .. } => "SteamCMD (`"@ + invocation + "`) "@ + status_text(code)
            + "."@,
    }
}

/// A file as a name and its bytes.
pub open spec fn attachment_view(a: Attachment) -> (Seq<char>, Seq<u8>) {
    (a.name@, a.bytes@)
}

/// The files attached to the report: the captured output streams that are not
/// empty, then SteamCMD's own console log when this run added to it.
pub open spec fn report_files(outcome: Outcome, console: Seq<u8>) -> Seq<(Seq<char>, Seq<u8>)> {
    let streams = match outcome {
        Outcome::Ran { stdout, stderr, .. } => (if stdout@.len() > 0 {
            seq![("stdout.log"@, stdout@)]
        } else {
            Seq::empty()
        }) + (if stderr@.len() > 0 {
            seq![("stderr.log"@, stderr@)]
        } else {
            Seq::empty()
        }),
        _ => Seq::empty(),
    };
    streams + (if console.len() > 0 {
        seq![("steamcmd_console.log"@, console)]
    } else {
        Seq::empty()
    })
}

/// The invocation as a report echoes it: the arguments joined by spaces,
/// clipped for display.
pub open spec fn echoed_invocation(args: Seq<Seq<char>>) -> Seq<char> {
    clip(join(args, " "@), MAX_INVOCATION_DISPLAY as nat)
}

/// Build the final report: a short status line, plus the logs as files.
pub fn render_result(args: &Vec<String>, outcome: Outcome, console_output: Vec<u8>) -> (r: Report)
    ensures
        r.content@ == report_text(echoed_invocation(views(args@)), outcome),
        r.files@.map_values(|a: Attachment| attachment_view(a)) == report_files(
            outcome,
            console_output@,
        ),
{
    let joined_args = join_strings(args, " ");
    let invocation = truncate_invocation(joined_args.as_str());
    let ghost before = outcome;
    let mut content = String::new();
    let mut files: Vec<Attachment> = Vec::new();
    match outcome {
        Outcome::TimedOut => {
            push_str(&mut content, "SteamCMD (`");
            push_str(&mut content, invocation.as_str());
            push_str(&mut content, "`) did not finish and was killed after timing out.");
        },
        Outcome::FailedToStart(e) => {
            push_str(&mut content, "Could not start SteamCMD (`");
            push_str(&mut content, invocation.as_str());
            push_str(&mut content, "`): ");
            push_str(&mut content, e.as_str());
        },
        Outcome::Ran { code, stdout, stderr } => {
            push_str(&mut content, "SteamCMD (`");
            push_str(&mut content, invocation.as_str());
            push_str(&mut content, "`) ");
            match code {
                Some(c) => {
                    if c == 0 {
                        push_str(&mut content, "finished successfully");
                    } else {
                        push_str(&mut content, "exited with code ");
                        push_signed(&mut content, c as i64);
                    }
                },
                None => {
                    push_str(&mut content, "was terminated by a signal");
                },
            }
            push_str(&mut content, ".");
            if stdout.len() > 0 {
                files.push(Attachment { name: "stdout.log", bytes: stdout });
            }
            if stderr.len() > 0 {
                files.push(Attachment { name: "stderr.log", bytes: stderr });
            }
        },
    }
    let ghost streams = files@.map_values(|a: Attachment| attachment_view(a));
    assert(content@ =~= report_text(invocation@, before));
    assert(streams =~= report_files(before, Seq::empty()));
    let ghost console = console_output@;
    if console_output.len() > 0 {
        files.push(Attachment { name: "steamcmd_console.log", bytes: console_output });
    }
    assert(files@.map_values(|a: Attachment| attachment_view(a)) =~= report_files(before, console));
    Report { content, files }
}

/// SteamCMD is only ever started with `+quit` among its arguments, since
/// without it SteamCMD waits for input forever: a request is refused exactly
/// when `+quit` is missing.
pub proof fn lemma_runs_only_with_quit(args: Seq<Seq<char>>)
    ensures
        refusal(args) is None <==> args.contains("+quit"@),
{
    if args.contains("+quit"@) {
        let i = choose|i: int| 0 <= i < args.len() && args[i] == "+quit"@;
        assert(args.len() > 0);
    }
}

/// A number below `10^k` has at most `k` decimal digits.
proof fn lemma_decimal_len_below(n: nat, k: nat)
    requires
        n < ten_pow(k),
        k >= 1,
    ensures
        decimal(n).len() <= k,
    decreases k,
{
    if n >= 10 {
        if k == 1 {
            assert(ten_pow(1) == 10 * ten_pow(0));
        }
        let j = (k - 1) as nat;
        assert(ten_pow(k) == 10 * ten_pow(j));
        assert(n / 10 < ten_pow(j)) by (nonlinear_arith)
            requires
                n < 10 * ten_pow(j),
        ;
        lemma_decimal_len_below(n / 10, j);
        assert(decimal(n) == decimal(n / 10).push(digit((n % 10) as int)));
    } else {
        assert(decimal(n) == seq![digit(n as int)]);
    }
}

/// A 32-bit exit code takes at most eleven characters.
proof fn lemma_exit_code_len(c: i32)
    ensures
        signed_decimal(c as int).len() <= 11,
{
    reveal_with_fuel(ten_pow, 11);
    assert(ten_pow(10) == 10_000_000_000nat);
    if c < 0 {
        lemma_decimal_len_below((-(c as int)) as nat, 10);
    } else {
        lemma_decimal_len_below(c as nat, 10);
    }
}

/// How many characters the reason a start failed adds to a status line.
pub open spec fn start_error_len(outcome: Outcome) -> nat {
    match outcome {
        Outcome::FailedToStart(e) => e@.len(),
        _ => 0,
    }
}

/// The status line of a report stays well inside Discord's 2000-character
/// limit, so it can always be sent: the echoed invocation is clipped to
/// `MAX_INVOCATION_DISPLAY` characters, the rest of the line takes at most
/// 61, and only the reason a start failed comes on top.
pub proof fn lemma_status_line_fits(args: Seq<Seq<char>>, outcome: Outcome)
    ensures
        report_text(echoed_invocation(args), outcome).len() <= MAX_INVOCATION_DISPLAY + 61
            + start_error_len(outcome),
{
    reveal_strlit("SteamCMD (`");
    reveal_strlit("`) did not finish and was killed after timing out.");
    reveal_strlit("Could not start SteamCMD (`");
    reveal_strlit("`): ");
    reveal_strlit("`) ");
    reveal_strlit("finished successfully");
    reveal_strlit("exited with code ");
    reveal_strlit("was terminated by a signal");
    reveal_strlit(".");
    let inv = echoed_invocation(args);
    assert(inv.len() <= MAX_INVOCATION_DISPLAY);
    match outcome {
        Outcome::Ran { code, .. } => {
            if let Some(c) = code {
                lemma_exit_code_len(c);
            }
        },
        _ => {},
    }
}

/// A run that exited is reported as a success exactly when its exit code is
/// 0; any other code is named, in decimal with its sign, and a run ended by
/// a signal says so.
pub proof fn lemma_status_names_the_exit_code(invocation: Seq<char>, outcome: Outcome)
    ensures
        outcome matches Outcome::Ran { code: Some(c), .. } ==> (c == 0 ==> report_text(
            invocation,
            outcome,
        ) == "SteamCMD (`"@ + invocation + "`) finished successfully."@),
        outcome matches Outcome::Ran { code: Some(c), .. } ==> (c != 0 ==> report_text(
            invocation,
            outcome,
        ) == "SteamCMD (`"@ + invocation + "`) exited with code "@ + signed_decimal(c as int) + "."@),
        outcome matches Outcome::Ran { code: None, .. } ==> report_text(invocation, outcome)
            == "SteamCMD (`"@ + invocation + "`) was terminated by a signal."@,
{
    reveal_strlit("SteamCMD (`");
    reveal_strlit("`) ");
    reveal_strlit(".");
    reveal_strlit("finished successfully");
    reveal_strlit("exited with code ");
    reveal_strlit("was terminated by a signal");
    reveal_strlit("`) finished successfully.");
    reveal_strlit("`) exited with code ");
    reveal_strlit("`) was terminated by a signal.");
    let head = "SteamCMD (`"@ + invocation;
    match outcome {
        Outcome::Ran { code: Some(c), .. } => {
            if c == 0 {
                assert(head + "`) "@ + "finished successfully"@ + "."@ =~= head
                    + "`) finished successfully."@);
            } else {
                assert(head + "`) "@ + ("exited with code "@ + signed_decimal(c as int)) + "."@
                    =~= head + "`) exited with code "@ + signed_decimal(c as int) + "."@);
            }
        },
        Outcome::Ran { code: None, .. } => {
            assert(head + "`) "@ + "was terminated by a signal"@ + "."@ =~= head
                + "`) was terminated by a signal."@);
        },
        _ => {},
    }
}

} // verus!

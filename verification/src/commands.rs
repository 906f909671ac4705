//! The replies of the smaller commands.

use vstd::prelude::*;
use crate::text::{decimal, owned, push_decimal, push_str, views};

verus! {

/// A process about to be killed, as the kill report names it.
pub struct Victim {
    pub pid: u64,
    pub name: String,
    /// The process's disk usage, as its debug form prints it.
    pub disk_usage: String,
}

/// The report line for one killed process.
pub open spec fn victim_line(v: Victim) -> Seq<char> {
    "killing ["@ + decimal(v.pid as nat) + "] "@ + v.name@ + " "@ + v.disk_usage@
}

/// The lines for `victims`, each ended by a newline.
pub open spec fn victim_lines(victims: Seq<Victim>) -> Seq<char>
    decreases victims.len(),
{
    if victims.len() == 0 {
        Seq::empty()
    } else {
        victim_lines(victims.drop_last()) + victim_line(victims.last()) + "\n"@
    }
}

/// The reply of `/kill_process`: `Found:` and one line per killed process.
pub fn kill_report(victims: &Vec<Victim>) -> (s: String)
    ensures
        s@ == "Found:\n"@ + victim_lines(victims@),
{
    let mut s = owned("Found:\n");
    let mut i: usize = 0;
    while i < victims.len()
        invariant
            i <= victims@.len(),
            s@ == "Found:\n"@ + victim_lines(victims@.take(i as int)),
        decreases victims@.len() - i,
    {
        let ghost before = s@;
        assert(victims@.take((i + 1) as int).drop_last() =~= victims@.take(i as int));
        let v = &victims[i];
        push_str(&mut s, "killing [");
        push_decimal(&mut s, v.pid as u128);
        push_str(&mut s, "] ");
        push_str(&mut s, v.name.as_str());
        push_str(&mut s, " ");
        push_str(&mut s, v.disk_usage.as_str());
        push_str(&mut s, "\n");
        i = i + 1;
        assert(s@ =~= "Found:\n"@ + victim_lines(victims@.take(i as int)));
    }
    assert(victims@.take(victims@.len() as int) =~= victims@);
    s
}

/// The desktop entries, one per line.
pub open spec fn path_lines(paths: Seq<Seq<char>>) -> Seq<char>
    decreases paths.len(),
{
    if paths.len() == 0 {
        Seq::empty()
    } else {
        path_lines(paths.drop_last()) + paths.last() + "\n"@
    }
}

/// The reply of `/list_desktop`: every desktop entry, then how to run one.
pub fn desktop_listing(paths: &Vec<String>) -> (s: String)
    ensures
        s@ == path_lines(views(paths@)) + "\n"@
            + "Run the run_desktop_shortcut with just the filename (no directory) as arg."@,
{
    let mut s = String::new();
    let mut i: usize = 0;
    while i < paths.len()
        invariant
            i <= paths@.len(),
            s@ == path_lines(views(paths@).take(i as int)),
        decreases paths@.len() - i,
    {
        assert(views(paths@).take((i + 1) as int).drop_last() =~= views(paths@).take(i as int));
        push_str(&mut s, paths[i].as_str());
        push_str(&mut s, "\n");
        i = i + 1;
        assert(s@ =~= path_lines(views(paths@).take(i as int)));
    }
    assert(views(paths@).take(paths@.len() as int) =~= views(paths@));
    push_str(&mut s, "\n");
    push_str(&mut s, "Run the run_desktop_shortcut with just the filename (no directory) as arg.");
    s
}

/// The reply of `/version`: the package, its version and the revision built.
pub fn version_line(package: &str, version: &str, revision: &str) -> (s: String)
    ensures
        s@ == package@ + " v"@ + version@ + " \u{2014} built from `"@ + revision@ + "`"@,
{
    let mut s = owned(package);
    push_str(&mut s, " v");
    push_str(&mut s, version);
    push_str(&mut s, " \u{2014} built from `");
    push_str(&mut s, revision);
    push_str(&mut s, "`");
    s
}

/// The reply once a desktop shortcut has been started.
pub fn started_line(filename: &str) -> (s: String)
    ensures
        s@ == "Started "@ + filename@,
{
    let mut s = owned("Started ");
    push_str(&mut s, filename);
    s
}

/// The reply when the server config shortcut cannot be resolved.
pub fn config_not_found(why: &str) -> (s: String)
    ensures
        s@ == "File not found: "@ + why@,
{
    let mut s = owned("File not found: ");
    push_str(&mut s, why);
    s
}

} // verus!

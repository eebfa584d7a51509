//! The pure parts of finding and stopping stray runtime processes: the
//! queries that are run, how their output is read, which processes are kept,
//! and what is written to the service logs.

use vstd::prelude::*;
use crate::launch::{file_name, file_name_of};
use crate::text::{
    chars_of, contains, contains_chars, decimal, decimal_string, is_whitespace, is_ws, push_chars, push_str,
    replace_all, replace_all_chars, string_from_chars,
};

verus! {

broadcast use vstd::string::group_string_axioms;

/// `s` with each single quote doubled, as a single-quoted PowerShell string
/// needs.
pub open spec fn quote_doubled(s: Seq<char>) -> Seq<char> {
    replace_all(s, seq!['\''], seq!['\'', '\''])
}

/// `s` with each single quote doubled.
pub fn double_quotes(s: &str) -> (r: String)
    ensures
        r@ == quote_doubled(s@),
{
    let v = chars_of(s);
    let from = ['\''];
    let to = ['\'', '\''];
    assert(from@ =~= seq!['\'']);
    assert(to@ =~= seq!['\'', '\'']);
    let r = replace_all_chars(v.as_slice(), &from, &to);
    string_from_chars(r.as_slice())
}

/// The process name of an executable: its file name, `caddy.exe` where the
/// path names none.
pub open spec fn process_name(path: Seq<char>) -> Seq<char> {
    let n = file_name_of(path);
    if n.len() == 0 || n == ".."@ {
        "caddy.exe"@
    } else {
        n
    }
}

/// The process name of an executable.
pub fn executable_process_name(path: &str) -> (r: String)
    ensures
        r@ == process_name(path@),
{
    let n = file_name(path);
    let dots = chars_of("..");
    if n.len() == 0 || crate::text::eq_chars(n.as_slice(), dots.as_slice()) {
        "caddy.exe".to_string()
    } else {
        string_from_chars(n.as_slice())
    }
}

/// The PowerShell query that lists the ids of the processes running the
/// executable at `full_path` (by its process name and full path).
pub open spec fn process_query_spec(executable: Seq<char>, full_path: Seq<char>) -> Seq<char> {
    "$target = '"@ + quote_doubled(full_path) + "'; Get-CimInstance Win32_Process -Filter \"Name = '"@
        + quote_doubled(process_name(executable))
        + "'\" | Where-Object { $_.ExecutablePath -and ([System.IO.Path]::GetFullPath($_.ExecutablePath) -ieq $target) } | ForEach-Object { $_.ProcessId }"@
}

/// The PowerShell query that lists the processes of an executable on
/// Windows; `full_path` is its canonical path where that could be had.
pub fn process_query_script(executable: &str, full_path: &str) -> (r: String)
    ensures
        r@ == process_query_spec(executable@, full_path@),
{
    let name = executable_process_name(executable);
    let mut r = String::new();
    push_str(&mut r, "$target = '");
    push_str(&mut r, double_quotes(full_path).as_str());
    push_str(&mut r, "'; Get-CimInstance Win32_Process -Filter \"Name = '");
    push_str(&mut r, double_quotes(name.as_str()).as_str());
    push_str(
        &mut r,
        "'\" | Where-Object { $_.ExecutablePath -and ([System.IO.Path]::GetFullPath($_.ExecutablePath) -ieq $target) } | ForEach-Object { $_.ProcessId }",
    );
    r
}

/// What is said when the processes of an executable cannot be listed.
pub fn inspect_failure(executable: &str, detail: &str) -> (r: String)
    ensures
        r@ == "Failed to inspect "@ + quote_doubled(process_name(executable@)) + " processes: "@ + detail@,
{
    let name = double_quotes(executable_process_name(executable).as_str());
    let mut r = String::new();
    push_str(&mut r, "Failed to inspect ");
    push_str(&mut r, name.as_str());
    push_str(&mut r, " processes: ");
    push_str(&mut r, detail);
    r
}

/// `kept` is what keeping the candidates `c` in order leaves: each is
/// dropped where it is this process or `same_exe` answered `false` for it,
/// and kept where `same_exe` answered `true`.
pub open spec fn kept_list<F: Fn(u32) -> bool>(same_exe: F, own_pid: u32, c: Seq<u32>, kept: Seq<u32>) -> bool
    decreases c.len(),
{
    if c.len() == 0 {
        kept.len() == 0
    } else {
        let last = c.last();
        ||| last != own_pid && call_ensures(same_exe, (last,), true) && kept.len() > 0 && kept.last() == last
            && kept_list(same_exe, own_pid, c.drop_last(), kept.drop_last())
        ||| (last == own_pid || call_ensures(same_exe, (last,), false)) && kept_list(
            same_exe,
            own_pid,
            c.drop_last(),
            kept,
        )
    }
}

/// The candidate process ids that run the executable itself: this process
/// is left out, and each other candidate is confirmed by `same_exe`, in
/// order.
pub fn verified_pids<F: Fn(u32) -> bool>(candidates: &Vec<u32>, own_pid: u32, same_exe: &F) -> (r: Vec<u32>)
    requires
        forall|p: u32| call_requires(*same_exe, (p,)),
    ensures
        kept_list(*same_exe, own_pid, candidates@, r@),
{
    let mut r: Vec<u32> = Vec::new();
    let mut i: usize = 0;
    while i < candidates.len()
        invariant
            i <= candidates@.len(),
            forall|p: u32| call_requires(*same_exe, (p,)),
            kept_list(*same_exe, own_pid, candidates@.take(i as int), r@),
        decreases candidates.len() - i,
    {
        let pid = candidates[i];
        let ghost before = r@;
        assert(candidates@.take(i + 1).drop_last() =~= candidates@.take(i as int));
        assert(candidates@.take(i + 1).last() == pid);
        if pid != own_pid {
            let same = same_exe(pid);
            if same {
                r.push(pid);
                assert(r@.drop_last() =~= before);
            }
        }
        i = i + 1;
    }
    assert(candidates@.take(i as int) =~= candidates@);
    r
}

/// The index of the first whitespace character of `s` at or after `i`, or
/// the length of `s`.
pub open spec fn ws_index_from(s: Seq<char>, i: int) -> int
    decreases s.len() - i,
{
    if i < 0 || i >= s.len() {
        s.len() as int
    } else if is_ws(s[i]) {
        i
    } else {
        ws_index_from(s, i + 1)
    }
}

/// `s` split at whitespace into at most `n` pieces, the last holding the
/// rest (`str::splitn` with `char::is_whitespace`).
pub open spec fn split_ws(s: Seq<char>, n: nat) -> Seq<Seq<char>>
    decreases s.len(),
{
    let i = ws_index_from(s, 0);
    if n <= 1 || !(0 <= i < s.len()) {
        seq![s]
    } else {
        seq![s.take(i)] + split_ws(s.skip(i + 1), (n - 1) as nat)
    }
}

/// The non-empty pieces, in order.
pub open spec fn non_empty_pieces(v: Seq<Seq<char>>) -> Seq<Seq<char>>
    decreases v.len(),
{
    if v.len() == 0 {
        v
    } else if v[0].len() == 0 {
        non_empty_pieces(v.drop_first())
    } else {
        seq![v[0]] + non_empty_pieces(v.drop_first())
    }
}

/// Whether a line of `lsof -p` output names `path` as the process's text
/// (executable) file: its fourth column is `txt` and its last is `path`.
pub open spec fn lsof_names(line: Seq<char>, path: Seq<char>) -> bool {
    let cols = non_empty_pieces(split_ws(line, 10));
    cols.len() > 3 && cols[3] == "txt"@ && cols.last() == path
}

/// The index of the first whitespace character of `v`, or its length.
fn ws_index(v: &[char]) -> (i: usize)
    ensures
        i == ws_index_from(v@, 0),
{
    let mut i: usize = 0;
    while i < v.len() && !is_whitespace(v[i])
        invariant
            i <= v.len(),
            ws_index_from(v@, 0) == ws_index_from(v@, i as int),
        decreases v.len() - i,
    {
        i = i + 1;
    }
    i
}

/// The pieces of `v` split at whitespace, at most `n`.
fn split_ws_chars(v: &[char], n: usize) -> (r: Vec<Vec<char>>)
    ensures
        r@.map_values(|w: Vec<char>| w@) == split_ws(v@, n as nat),
{
    let mut out: Vec<Vec<char>> = Vec::new();
    let mut rest: Vec<char> = crate::text::slice_of(v, 0, v.len());
    let mut left: usize = n;
    assert(rest@ =~= v@);
    assert(out@.map_values(|w: Vec<char>| w@) + split_ws(rest@, left as nat) =~= split_ws(rest@, left as nat));
    loop
        invariant_except_break
            split_ws(v@, n as nat) == out@.map_values(|w: Vec<char>| w@) + split_ws(rest@, left as nat),
        ensures
            split_ws(v@, n as nat) == out@.map_values(|w: Vec<char>| w@),
        decreases rest.len(),
    {
        let i = ws_index(rest.as_slice());
        if left <= 1 || i >= rest.len() {
            let ghost before = out@.map_values(|w: Vec<char>| w@);
            assert(split_ws(rest@, left as nat) == seq![rest@]);
            out.push(rest);
            assert(out@.map_values(|w: Vec<char>| w@) =~= before + seq![rest@]);
            break;
        }
        let head = crate::text::slice_of(rest.as_slice(), 0, i);
        let tail = crate::text::slice_of(rest.as_slice(), i + 1, rest.len());
        assert(head@ =~= rest@.take(i as int));
        assert(tail@ =~= rest@.skip(i + 1));
        let ghost before = out@.map_values(|w: Vec<char>| w@);
        out.push(head);
        assert(out@.map_values(|w: Vec<char>| w@) =~= before.push(head@));
        assert(before + split_ws(rest@, left as nat) =~= before.push(head@) + split_ws(tail@, (left - 1) as nat));
        rest = tail;
        left = left - 1;
    }
    out
}

/// Whether a line of `lsof -p` output names `path` as the process's
/// executable.
pub fn lsof_line_names(line: &str, path: &str) -> (b: bool)
    ensures
        b == lsof_names(line@, path@),
{
    let v = chars_of(line);
    let pieces = split_ws_chars(v.as_slice(), 10);
    let ghost pv = pieces@.map_values(|w: Vec<char>| w@);
    let mut cols: Vec<Vec<char>> = Vec::new();
    let mut i: usize = 0;
    assert(pv.skip(0) =~= pv);
    while i < pieces.len()
        invariant
            i <= pieces@.len(),
            pv == pieces@.map_values(|w: Vec<char>| w@),
            non_empty_pieces(pv) == cols@.map_values(|w: Vec<char>| w@) + non_empty_pieces(pv.skip(i as int)),
        decreases pieces.len() - i,
    {
        assert(pv.skip(i as int).drop_first() =~= pv.skip(i + 1));
        assert(pv.skip(i as int)[0] == pieces@[i as int]@);
        if pieces[i].len() > 0 {
            let ghost before = cols@.map_values(|w: Vec<char>| w@);
            cols.push(pieces[i].clone());
            assert(cols@.map_values(|w: Vec<char>| w@) =~= before.push(pieces@[i as int]@));
            assert(before + non_empty_pieces(pv.skip(i as int)) =~= before.push(pieces@[i as int]@)
                + non_empty_pieces(pv.skip(i + 1)));
        }
        i = i + 1;
    }
    assert(pv.skip(i as int) =~= Seq::<Seq<char>>::empty());
    let ghost cv = cols@.map_values(|w: Vec<char>| w@);
    assert(cv + Seq::<Seq<char>>::empty() =~= cv);
    if cols.len() <= 3 {
        return false;
    }
    let txt = chars_of("txt");
    let p = chars_of(path);
    let b = crate::text::eq_chars(cols[3].as_slice(), txt.as_slice()) && crate::text::eq_chars(
        cols[cols.len() - 1].as_slice(),
        p.as_slice(),
    );
    assert(cv[3] == cols@[3]@);
    assert(cv.last() == cols@[cols.len() - 1]@);
    b
}

/// `a`, the decimal digits of `n`, `b`.
fn with_number(a: &str, n: u64, b: &str) -> (s: String)
    ensures
        s@ == a@ + decimal(n as nat) + b@,
{
    let mut s = String::new();
    push_str(&mut s, a);
    push_str(&mut s, decimal_string(n).as_str());
    push_str(&mut s, b);
    s
}

/// The arguments that ask `tasklist` about one process.
pub fn tasklist_args(pid: u32) -> (r: Vec<String>)
    ensures
        r@.len() == 5,
        r@[0]@ == "/FI"@,
        r@[1]@ == "PID eq "@ + decimal(pid as nat),
        r@[2]@ == "/FO"@,
        r@[3]@ == "CSV"@,
        r@[4]@ == "/NH"@,
{
    let mut filter = String::new();
    push_str(&mut filter, "PID eq ");
    push_str(&mut filter, decimal_string(pid as u64).as_str());
    vec!["/FI".to_string(), filter, "/FO".to_string(), "CSV".to_string(), "/NH".to_string()]
}

/// Whether the output of `tasklist` lists the process: it holds the id in
/// double quotes.
pub fn tasklist_lists(stdout: &str, pid: u32) -> (b: bool)
    ensures
        b == contains(stdout@, seq!['"'] + decimal(pid as nat) + seq!['"']),
{
    let mut q: Vec<char> = Vec::new();
    q.push('"');
    let d = crate::text::decimal_chars(pid as u64);
    let mut i: usize = 0;
    while i < d.len()
        invariant
            i <= d@.len(),
            q@ == seq!['"'] + d@.take(i as int),
        decreases d.len() - i,
    {
        q.push(d[i]);
        assert(q@ =~= seq!['"'] + d@.take(i + 1));
        i = i + 1;
    }
    q.push('"');
    assert(d@.take(i as int) =~= d@);
    assert(q@ =~= seq!['"'] + decimal(pid as nat) + seq!['"']);
    let v = chars_of(stdout);
    contains_chars(v.as_slice(), q.as_slice())
}

/// The arguments that stop a process and its children on Windows.
pub fn taskkill_args(pid: u32) -> (r: Vec<String>)
    ensures
        r@.len() == 4,
        r@[0]@ == "/PID"@,
        r@[1]@ == decimal(pid as nat),
        r@[2]@ == "/T"@,
        r@[3]@ == "/F"@,
{
    vec!["/PID".to_string(), decimal_string(pid as u64), "/T".to_string(), "/F".to_string()]
}

/// What is said when a process cannot be stopped.
pub fn stop_failure(detail: &str, pid: u32) -> (r: String)
    ensures
        r@ == "Failed to stop process pid "@ + decimal(pid as nat) + ": "@ + detail@,
{
    let mut r = with_number("Failed to stop process pid ", pid as u64, ": ");
    push_str(&mut r, detail);
    r
}

/// What is said when the stopping command reports failure.
pub fn stop_refused(windows: bool, pid: u32) -> (r: String)
    ensures
        r@ == if windows {
            "taskkill failed for process pid "@ + decimal(pid as nat)
        } else {
            "kill failed for process pid "@ + decimal(pid as nat)
        },
{
    let mut r = String::new();
    if windows {
        push_str(&mut r, "taskkill failed for process pid ");
    } else {
        push_str(&mut r, "kill failed for process pid ");
    }
    push_str(&mut r, decimal_string(pid as u64).as_str());
    r
}

/// The first line written to the web server's log when stale processes of
/// its executable are found, or `None` where there are none.
pub fn caddy_cleanup_notice(pids: &Vec<u32>) -> (r: Option<String>)
    ensures
        pids@.len() == 0 ==> r is None,
        pids@.len() == 1 ==> (r matches Some(m) && m@ == "Found a stale Caddy process (pid "@ + decimal(
            pids@[0] as nat,
        ) + "). Stopping it before re-launch..."@),
        pids@.len() > 1 ==> (r matches Some(m) && m@ == "WARNING: Found "@ + decimal(pids@.len())
            + " Caddy processes running. Cleaning up duplicates..."@),
{
    if pids.len() == 0 {
        None
    } else if pids.len() > 1 {
        Some(with_number("WARNING: Found ", pids.len() as u64, " Caddy processes running. Cleaning up duplicates..."))
    } else {
        Some(with_number("Found a stale Caddy process (pid ", pids[0] as u64, "). Stopping it before re-launch..."))
    }
}

/// The log line for a stale web server process that was stopped.
pub fn caddy_stopped_line(pid: u32) -> (r: String)
    ensures
        r@ == "Stopped stale Caddy process (pid "@ + decimal(pid as nat) + ")"@,
{
    with_number("Stopped stale Caddy process (pid ", pid as u64, ")")
}

/// The log line that sums up the stale web server processes stopped.
pub fn caddy_cleaned_line(stopped: usize) -> (r: String)
    ensures
        r@ == "Cleaned up "@ + decimal(stopped as nat) + " stale Caddy process(es)"@,
{
    with_number("Cleaned up ", stopped as u64, " stale Caddy process(es)")
}

/// What cleaning up database server processes does with what was found.
#[derive(Debug, PartialEq, Eq, Structural)]
pub enum MysqlCleanup {
    /// No process runs the executable.
    Nothing,
    /// Several do: all are stopped.
    StopAll,
    /// One does: it is looked at on its own.
    CheckOne(u32),
}

/// What cleaning up database server processes does with what was found.
pub fn mysql_cleanup_plan(pids: &Vec<u32>) -> (r: MysqlCleanup)
    ensures
        pids@.len() == 0 ==> r == MysqlCleanup::Nothing,
        pids@.len() == 1 ==> r == MysqlCleanup::CheckOne(pids@[0]),
        pids@.len() > 1 ==> r == MysqlCleanup::StopAll,
{
    if pids.len() == 0 {
        MysqlCleanup::Nothing
    } else if pids.len() == 1 {
        MysqlCleanup::CheckOne(pids[0])
    } else {
        MysqlCleanup::StopAll
    }
}

/// The log line that warns of several database server processes.
pub fn mysql_duplicates_line(count: usize) -> (r: String)
    ensures
        r@ == "WARNING: Found "@ + decimal(count as nat) + " MySQL processes running. Cleaning up duplicates..."@,
{
    with_number("WARNING: Found ", count as u64, " MySQL processes running. Cleaning up duplicates...")
}

/// The log line for a duplicate database server process that was stopped.
pub fn mysql_stopped_line(pid: u32) -> (r: String)
    ensures
        r@ == "Stopped duplicate MySQL process (pid "@ + decimal(pid as nat) + ")"@,
{
    with_number("Stopped duplicate MySQL process (pid ", pid as u64, ")")
}

/// The log line that sums up the duplicate database server processes
/// stopped.
pub fn mysql_cleaned_line(stopped: usize) -> (r: String)
    ensures
        r@ == "Cleaned up "@ + decimal(stopped as nat) + " duplicate MySQL process(es)"@,
{
    with_number("Cleaned up ", stopped as u64, " duplicate MySQL process(es)")
}

/// The log line written about a lone database server process: only where
/// nothing accepts connections on the port and the process is gone.
pub fn mysql_single_check(pid: u32, port_accepts: bool, process_alive: bool) -> (r: Option<String>)
    ensures
        (!port_accepts && !process_alive) ==> (r matches Some(m) && m@ == "Found stale MySQL PID "@ + decimal(
            pid as nat,
        ) + " (process not running)"@),
        (port_accepts || process_alive) ==> r is None,
{
    if !port_accepts && !process_alive {
        Some(with_number("Found stale MySQL PID ", pid as u64, " (process not running)"))
    } else {
        None
    }
}

/// The report of stale processes stopped for a runtime executable.
pub fn stale_stop_report(stopped: usize, label: &str, executable: &str) -> (r: String)
    ensures
        r@ == "Stopped "@ + decimal(stopped as nat) + " stale "@ + label@ + " process(es) for "@ + executable@,
{
    let mut r = with_number("Stopped ", stopped as u64, " stale ");
    push_str(&mut r, label);
    push_str(&mut r, " process(es) for ");
    push_str(&mut r, executable);
    r
}

/// This process is never among the processes kept.
pub proof fn lemma_own_process_never_kept<F: Fn(u32) -> bool>(same_exe: F, own_pid: u32, c: Seq<u32>, kept: Seq<u32>)
    requires
        kept_list(same_exe, own_pid, c, kept),
    ensures
        !kept.contains(own_pid),
        kept.len() <= c.len(),
    decreases c.len(),
{
    if c.len() > 0 {
        let last = c.last();
        if last != own_pid && call_ensures(same_exe, (last,), true) && kept.len() > 0 && kept.last() == last
            && kept_list(same_exe, own_pid, c.drop_last(), kept.drop_last()) {
            lemma_own_process_never_kept(same_exe, own_pid, c.drop_last(), kept.drop_last());
            assert(kept =~= kept.drop_last().push(last));
            if kept.contains(own_pid) {
                let k = choose|k: int| 0 <= k < kept.len() && kept[k] == own_pid;
                if k < kept.len() - 1 {
                    assert(kept.drop_last()[k] == own_pid);
                }
            }
        } else {
            lemma_own_process_never_kept(same_exe, own_pid, c.drop_last(), kept);
        }
    }
}

} // verus!

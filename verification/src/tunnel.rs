//! The public HTTPS preview: a Cloudflare quick tunnel to the local web
//! server, its state, and what its output tells about it.

use vstd::prelude::*;
use crate::packages::{copy_opt, opt_text_of, texts};
use crate::locator::{first_present, join_path, join_spec, none_present, picks};
use crate::launch::{file_name, file_name_of};
use crate::text::{
    char_index, chars_of, contains, contains_chars, decimal, decimal_string, ends_with, eq_chars,
    ends_with_chars, find, find_chars, is_whitespace, is_ws, lower, lower_chars, push_chars,
    push_str, slice_of, string_from_chars, trim, trim_chars, trim_end_set, trim_end_set_chars,
};

verus! {

broadcast use vstd::string::group_string_axioms;

/// The state of the HTTPS preview as the user interface shows it.
#[derive(Clone, Debug)]
pub struct HttpsTunnelStatus {
    pub running: bool,
    pub url: Option<String>,
    pub ready: bool,
    pub local_url: String,
    pub error: Option<String>,
    pub log_path: Option<String>,
    pub pid: Option<u32>,
}

impl HttpsTunnelStatus {
    /// A copy of the status.
    pub fn duplicate(&self) -> (r: HttpsTunnelStatus)
        ensures
            r == *self,
    {
        HttpsTunnelStatus {
            running: self.running,
            url: copy_opt(&self.url),
            ready: self.ready,
            local_url: self.local_url.clone(),
            error: copy_opt(&self.error),
            log_path: copy_opt(&self.log_path),
            pid: self.pid,
        }
    }
}

/// The tunnel as the application tracks it: whether a `cloudflared` child
/// process runs it, and its status.
pub struct TunnelRuntime {
    pub has_child: bool,
    pub status: HttpsTunnelStatus,
}

/// The tunnel state is consistent: it is shown ready only while it runs
/// with a public URL, and without a `cloudflared` child it neither runs nor
/// is ready, and has no process id.
pub open spec fn tunnel_wf(t: TunnelRuntime) -> bool {
    &&& t.status.ready ==> t.status.running && t.status.url is Some
    &&& !t.has_child ==> !t.status.running && !t.status.ready && t.status.pid is None
}

impl TunnelRuntime {
    /// No tunnel: not running, no URL, no error.
    pub fn new() -> (t: TunnelRuntime)
        ensures
            !t.has_child,
            !t.status.running && t.status.url is None && !t.status.ready && t.status.local_url@.len() == 0
                && t.status.error is None && t.status.log_path is None && t.status.pid is None,
            tunnel_wf(t),
    {
        TunnelRuntime {
            has_child: false,
            status: HttpsTunnelStatus {
                running: false,
                url: None,
                ready: false,
                local_url: String::new(),
                error: None,
                log_path: None,
                pid: None,
            },
        }
    }
}

/// What asking the `cloudflared` child about itself found.
pub enum TunnelChildCheck {
    /// It exited; the text of its exit status.
    Exited(String),
    /// It still runs.
    Running,
    /// It could not be asked; why.
    CheckFailed(String),
}

/// Stop the current public HTTPS tunnel, if one is running: the child is
/// gone, and the status is not running, with no URL, pid or error.
pub fn stop_https_tunnel(runtime: &mut TunnelRuntime) -> (s: HttpsTunnelStatus)
    ensures
        tunnel_wf(*final(runtime)),
        !final(runtime).has_child,
        final(runtime).status == (HttpsTunnelStatus {
            running: false,
            pid: None,
            url: None,
            ready: false,
            error: None,
            ..old(runtime).status
        }),
        s == final(runtime).status,
{
    runtime.has_child = false;
    runtime.status.running = false;
    runtime.status.pid = None;
    runtime.status.url = None;
    runtime.status.ready = false;
    runtime.status.error = None;
    runtime.status.duplicate()
}

/// The status after a health check of the tunnel.
pub open spec fn health_checked(t: TunnelRuntime, check: TunnelChildCheck, f: TunnelRuntime) -> bool {
    if t.has_child {
        match check {
            TunnelChildCheck::Exited(desc) => !f.has_child && f.status == (HttpsTunnelStatus {
                running: false,
                pid: None,
                ready: false,
                error: f.status.error,
                ..t.status
            }) && match t.status.error {
                Some(e) => f.status.error == Some(e),
                None => f.status.error matches Some(m) && m@ == "HTTPS tunnel exited with "@ + desc@,
            },
            TunnelChildCheck::Running => f.has_child && f.status == (HttpsTunnelStatus {
                running: true,
                ..t.status
            }),
            TunnelChildCheck::CheckFailed(e) => f.has_child && f.status == (HttpsTunnelStatus {
                running: false,
                ready: false,
                error: f.status.error,
                ..t.status
            }) && (f.status.error matches Some(m) && m@ == "Failed to check HTTPS tunnel: "@ + e@),
        }
    } else {
        !f.has_child && f.status == (HttpsTunnelStatus {
            running: false,
            pid: None,
            ready: false,
            ..t.status
        })
    }
}

/// Records a health check of the tunnel (the check is ignored where no child
/// process runs it).
pub fn update_tunnel_health(runtime: &mut TunnelRuntime, check: TunnelChildCheck)
    requires
        tunnel_wf(*old(runtime)),
    ensures
        tunnel_wf(*final(runtime)),
        health_checked(*old(runtime), check, *final(runtime)),
{
    if runtime.has_child {
        match check {
            TunnelChildCheck::Exited(desc) => {
                runtime.has_child = false;
                runtime.status.running = false;
                runtime.status.pid = None;
                runtime.status.ready = false;
                if runtime.status.error.is_none() {
                    let mut m = String::new();
                    push_str(&mut m, "HTTPS tunnel exited with ");
                    push_str(&mut m, desc.as_str());
                    runtime.status.error = Some(m);
                }
            },
            TunnelChildCheck::Running => {
                runtime.status.running = true;
            },
            TunnelChildCheck::CheckFailed(e) => {
                runtime.status.running = false;
                runtime.status.ready = false;
                let mut m = String::new();
                push_str(&mut m, "Failed to check HTTPS tunnel: ");
                push_str(&mut m, e.as_str());
                runtime.status.error = Some(m);
            },
        }
    } else {
        runtime.status.running = false;
        runtime.status.pid = None;
        runtime.status.ready = false;
    }
}

/// Get the current public HTTPS tunnel status, after a health check.
pub fn get_https_tunnel_status(runtime: &mut TunnelRuntime, check: TunnelChildCheck) -> (s:
    HttpsTunnelStatus)
    requires
        tunnel_wf(*old(runtime)),
    ensures
        tunnel_wf(*final(runtime)),
        s.ready ==> s.running && s.url is Some,
        !final(runtime).has_child ==> !s.running && !s.ready && s.pid is None,
        health_checked(*old(runtime), check, *final(runtime)),
        s == final(runtime).status,
{
    update_tunnel_health(runtime, check);
    runtime.status.duplicate()
}

/// The status of the running tunnel to `local_url`, after a health check;
/// none where no tunnel to it runs.
pub fn running_status_for_local_url(runtime: &mut TunnelRuntime, check: TunnelChildCheck, local_url: &str) -> (r:
    Option<HttpsTunnelStatus>)
    requires
        tunnel_wf(*old(runtime)),
    ensures
        tunnel_wf(*final(runtime)),
        health_checked(*old(runtime), check, *final(runtime)),
        final(runtime).status.running && final(runtime).status.local_url@ == local_url@ ==> r
            == Some(final(runtime).status),
        !(final(runtime).status.running && final(runtime).status.local_url@ == local_url@) ==> r is None,
{
    update_tunnel_health(runtime, check);
    if runtime.status.running && crate::packages::same_text(runtime.status.local_url.as_str(), local_url) {
        Some(runtime.status.duplicate())
    } else {
        None
    }
}

/// Records that the public URL answers: a running tunnel with a public URL
/// becomes ready, with no error. A tunnel that no longer runs, or has no URL
/// yet, is left as it is: it is shown ready only while it runs with a URL.
pub fn mark_public_url_ready(runtime: &mut TunnelRuntime) -> (s: HttpsTunnelStatus)
    requires
        tunnel_wf(*old(runtime)),
    ensures
        tunnel_wf(*final(runtime)),
        final(runtime).has_child == old(runtime).has_child,
        old(runtime).status.running && old(runtime).status.url is Some ==> final(runtime).status == (
        HttpsTunnelStatus { ready: true, error: None, ..old(runtime).status }),
        !(old(runtime).status.running && old(runtime).status.url is Some) ==> final(runtime).status == old(
            runtime,
        ).status,
        s == final(runtime).status,
{
    if runtime.status.running && runtime.status.url.is_some() {
        runtime.status.ready = true;
        runtime.status.error = None;
    }
    runtime.status.duplicate()
}

/// The message where the public URL never answered.
pub open spec fn timeout_message() -> Seq<char> {
    "Timed out waiting for the public HTTPS domain to become reachable. Stop and start HTTPS to request a fresh tunnel."@
}

/// Records that the public URL never answered.
pub fn mark_public_url_timeout(runtime: &mut TunnelRuntime) -> (s: HttpsTunnelStatus)
    requires
        tunnel_wf(*old(runtime)),
    ensures
        tunnel_wf(*final(runtime)),
        final(runtime).has_child == old(runtime).has_child,
        final(runtime).status == (HttpsTunnelStatus {
            ready: false,
            error: final(runtime).status.error,
            ..old(runtime).status
        }),
        final(runtime).status.error matches Some(e) && e@ == timeout_message(),
        s == final(runtime).status,
{
    runtime.status.ready = false;
    runtime.status.error = Some(
        "Timed out waiting for the public HTTPS domain to become reachable. Stop and start HTTPS to request a fresh tunnel.".to_string(),
    );
    runtime.status.duplicate()
}

/// Records a started tunnel to `local_url`: running, not yet with a public
/// URL, logging to `log_path`.
pub fn tunnel_started(runtime: &mut TunnelRuntime, local_url: String, log_path: String, pid: u32)
    ensures
        tunnel_wf(*final(runtime)),
        final(runtime).has_child,
        final(runtime).status == (HttpsTunnelStatus {
            running: true,
            url: None,
            ready: false,
            local_url,
            error: None,
            log_path: Some(log_path),
            pid: Some(pid),
        }),
{
    runtime.status = HttpsTunnelStatus {
        running: true,
        url: None,
        ready: false,
        local_url,
        error: None,
        log_path: Some(log_path),
        pid: Some(pid),
    };
    runtime.has_child = true;
}

/// The characters that end a URL in a log line.
pub open spec fn url_end(c: char) -> bool {
    is_ws(c) || c == '"' || c == '\'' || c == '<' || c == '>' || c == ')' || c == ']'
}

/// The index of the first character of `t` that ends a URL, else its length.
pub open spec fn url_end_index(t: Seq<char>) -> int {
    if exists|i: int| 0 <= i < t.len() && url_end(t[i]) {
        choose|i: int| 0 <= i < t.len() && url_end(t[i]) && forall|j: int| 0 <= j < i ==> !url_end(t[j])
    } else {
        t.len() as int
    }
}

/// The quick tunnel URL in a line of `cloudflared` output: the first
/// `https://` URL, without trailing punctuation, where it is on
/// `trycloudflare.com`.
pub open spec fn trycloudflare_url(line: Seq<char>) -> Option<Seq<char>> {
    match find(line, "https://"@) {
        Some(start) => {
            let tail = line.skip(start);
            let url = trim_end_set(tail.take(url_end_index(tail)), seq!['.', ',', ';', ':']);
            if contains(url, ".trycloudflare.com"@) || ends_with(url, "trycloudflare.com"@) {
                Some(url)
            } else {
                None
            }
        },
        None => None,
    }
}

/// The quick tunnel URL in a line of `cloudflared` output.
pub fn extract_trycloudflare_url(line: &str) -> (r: Option<String>)
    ensures
        match trycloudflare_url(line@) {
            Some(u) => r matches Some(x) && x@ == u,
            None => r is None,
        },
{
    let l = chars_of(line);
    let p = chars_of("https://");
    let start = match find_chars(l.as_slice(), p.as_slice()) {
        Some(s) => s,
        None => {
            return None;
        },
    };
    proof {
        crate::text::lemma_find(l@, p@);
    }
    let tail = slice_of(l.as_slice(), start, l.len());
    assert(tail@ =~= l@.skip(start as int));
    let mut end: usize = 0;
    while end < tail.len() && !(is_whitespace(tail[end]) || tail[end] == '"' || tail[end] == '\''
        || tail[end] == '<' || tail[end] == '>' || tail[end] == ')' || tail[end] == ']')
        invariant
            end <= tail.len(),
            forall|j: int| 0 <= j < end ==> !url_end(#[trigger] tail@[j]),
        decreases tail.len() - end,
    {
        end = end + 1;
    }
    proof {
        let t = tail@;
        if end < tail.len() {
            assert(url_end(t[end as int]));
            let c = choose|i: int| 0 <= i < t.len() && url_end(t[i]) && forall|j: int| 0 <= j < i ==> !url_end(t[j]);
            if c < end {
                assert(!url_end(t[c]));
            }
            if c > end {
                assert(!url_end(t[end as int]));
            }
        } else {
            if exists|i: int| 0 <= i < t.len() && url_end(t[i]) {
                let i = choose|i: int| 0 <= i < t.len() && url_end(t[i]);
                assert(!url_end(t[i]));
            }
        }
    }
    let head = slice_of(tail.as_slice(), 0, end);
    assert(head@ =~= tail@.take(end as int));
    let punct = ['.', ',', ';', ':'];
    let url = trim_end_set_chars(head.as_slice(), &punct);
    assert(punct@ =~= seq!['.', ',', ';', ':']);
    let a = chars_of(".trycloudflare.com");
    let b = chars_of("trycloudflare.com");
    if contains_chars(url.as_slice(), a.as_slice()) || ends_with_chars(url.as_slice(), b.as_slice()) {
        Some(string_from_chars(url.as_slice()))
    } else {
        None
    }
}

/// A line of output reports an error: it mentions an error, a failure or a
/// panic, in any ASCII case.
pub open spec fn reports_error(line: Seq<char>) -> bool {
    let l = lower(line);
    contains(l, "error"@) || contains(l, "failed"@) || contains(l, "panic"@)
}

/// The status after a line of `cloudflared` output: a quick tunnel URL is
/// taken (not yet ready, clearing any error); an error line is kept as the
/// error while no URL is known; other lines change nothing.
pub open spec fn output_recorded(s: HttpsTunnelStatus, line: Seq<char>, f: HttpsTunnelStatus) -> bool {
    match trycloudflare_url(line) {
        Some(u) => f == (HttpsTunnelStatus { url: f.url, ready: false, error: None, ..s }) && (f.url matches Some(x)
            && x@ == u),
        None => if reports_error(line) && s.url is None {
            f == (HttpsTunnelStatus { error: f.error, ..s }) && (f.error matches Some(e) && e@ == trim(line))
        } else {
            f == s
        },
    }
}

/// Takes in a line of `cloudflared` output.
pub fn record_tunnel_output(runtime: &mut TunnelRuntime, line: &str)
    requires
        tunnel_wf(*old(runtime)),
    ensures
        tunnel_wf(*final(runtime)),
        final(runtime).has_child == old(runtime).has_child,
        output_recorded(old(runtime).status, line@, final(runtime).status),
{
    let public_url = extract_trycloudflare_url(line);
    let l = chars_of(line);
    let low = lower_chars(l.as_slice());
    let e1 = chars_of("error");
    let e2 = chars_of("failed");
    let e3 = chars_of("panic");
    let is_error = contains_chars(low.as_slice(), e1.as_slice()) || contains_chars(low.as_slice(), e2.as_slice())
        || contains_chars(low.as_slice(), e3.as_slice());
    match public_url {
        Some(url) => {
            runtime.status.url = Some(url);
            runtime.status.ready = false;
            runtime.status.error = None;
        },
        None => {
            if is_error && runtime.status.url.is_none() {
                let t = trim_chars(l.as_slice());
                runtime.status.error = Some(string_from_chars(t.as_slice()));
            }
        },
    }
}

/// The address of the local web server that the tunnel exposes.
pub fn tunnel_local_url(web_port: u16) -> (s: String)
    ensures
        s@ == "http://127.0.0.1:"@ + decimal(web_port as nat),
{
    let mut s = String::new();
    push_str(&mut s, "http://127.0.0.1:");
    let d = decimal_string(web_port as u64);
    push_str(&mut s, d.as_str());
    s
}

/// The command line of `cloudflared` for a quick tunnel to `local_url`.
pub fn cloudflared_args(local_url: &str) -> (v: Vec<String>)
    ensures
        crate::packages::texts(v@) == seq!["tunnel"@, "--no-autoupdate"@, "--url"@, local_url@],
{
    let v = vec![
        "tunnel".to_string(),
        "--no-autoupdate".to_string(),
        "--url".to_string(),
        local_url.to_string(),
    ];
    assert(crate::packages::texts(v@) =~= seq!["tunnel"@, "--no-autoupdate"@, "--url"@, local_url@]);
    v
}

/// Where `cloudflared` is downloaded from for a platform.
pub struct CloudflaredDownload {
    pub url: String,
    pub temp_file_name: String,
    pub archive_tgz: bool,
}

/// The `cloudflared` release for an operating system and architecture, as
/// Rust names them; none for other platforms.
pub open spec fn cloudflared_release(os: Seq<char>, arch: Seq<char>) -> Option<(Seq<char>, Seq<char>, bool)> {
    let base = "https://github.com/cloudflare/cloudflared/releases/latest/download/"@;
    if os == "windows"@ && arch == "x86_64"@ {
        Some((base + "cloudflared-windows-amd64.exe"@, "cloudflared-download.exe"@, false))
    } else if os == "windows"@ && arch == "aarch64"@ {
        Some((base + "cloudflared-windows-arm64.exe"@, "cloudflared-download.exe"@, false))
    } else if os == "linux"@ && arch == "x86_64"@ {
        Some((base + "cloudflared-linux-amd64"@, "cloudflared-download"@, false))
    } else if os == "linux"@ && arch == "aarch64"@ {
        Some((base + "cloudflared-linux-arm64"@, "cloudflared-download"@, false))
    } else if os == "macos"@ && arch == "x86_64"@ {
        Some((base + "cloudflared-darwin-amd64.tgz"@, "cloudflared-download.tgz"@, true))
    } else if os == "macos"@ && arch == "aarch64"@ {
        Some((base + "cloudflared-darwin-arm64.tgz"@, "cloudflared-download.tgz"@, true))
    } else {
        None
    }
}

fn download(file: &str, temp: &str, tgz: bool) -> (d: CloudflaredDownload)
    ensures
        d.url@ == "https://github.com/cloudflare/cloudflared/releases/latest/download/"@ + file@,
        d.temp_file_name@ == temp@,
        d.archive_tgz == tgz,
{
    let mut url = String::new();
    push_str(&mut url, "https://github.com/cloudflare/cloudflared/releases/latest/download/");
    push_str(&mut url, file);
    CloudflaredDownload { url, temp_file_name: temp.to_string(), archive_tgz: tgz }
}

/// The `cloudflared` release for an operating system and architecture.
pub fn cloudflared_download(os: &str, arch: &str) -> (r: Result<CloudflaredDownload, String>)
    ensures
        match cloudflared_release(os@, arch@) {
            Some((url, temp, tgz)) => r matches Ok(d) && d.url@ == url && d.temp_file_name@ == temp
                && d.archive_tgz == tgz,
            None => r matches Err(e) && e@ == "Automatic HTTPS tunnel runtime is not available for "@
                + os@ + "/"@ + arch@,
        },
{
    let windows = crate::packages::same_text(os, "windows");
    let linux = crate::packages::same_text(os, "linux");
    let macos = crate::packages::same_text(os, "macos");
    let x64 = crate::packages::same_text(arch, "x86_64");
    let arm = crate::packages::same_text(arch, "aarch64");
    if windows && x64 {
        Ok(download("cloudflared-windows-amd64.exe", "cloudflared-download.exe", false))
    } else if windows && arm {
        Ok(download("cloudflared-windows-arm64.exe", "cloudflared-download.exe", false))
    } else if linux && x64 {
        Ok(download("cloudflared-linux-amd64", "cloudflared-download", false))
    } else if linux && arm {
        Ok(download("cloudflared-linux-arm64", "cloudflared-download", false))
    } else if macos && x64 {
        Ok(download("cloudflared-darwin-amd64.tgz", "cloudflared-download.tgz", true))
    } else if macos && arm {
        Ok(download("cloudflared-darwin-arm64.tgz", "cloudflared-download.tgz", true))
    } else {
        let mut e = String::new();
        push_str(&mut e, "Automatic HTTPS tunnel runtime is not available for ");
        push_str(&mut e, os);
        push_str(&mut e, "/");
        push_str(&mut e, arch);
        Err(e)
    }
}

/// The name of the `cloudflared` executable.
pub fn cloudflared_executable_name(windows: bool) -> (s: &'static str)
    ensures
        s@ == if windows {
            "cloudflared.exe"@
        } else {
            "cloudflared"@
        },
{
    if windows {
        "cloudflared.exe"
    } else {
        "cloudflared"
    }
}

/// What starting the tunnel to `local_url` comes to.
pub enum TunnelStart {
    /// A tunnel to it runs and its public URL answers.
    Ready(HttpsTunnelStatus),
    /// A tunnel to it runs; wait for its public URL.
    Wait,
    /// Stop any other tunnel and start one.
    Launch,
}

/// Decides how the tunnel to `local_url` is started, after a health check.
pub fn plan_tunnel_start(runtime: &mut TunnelRuntime, check: TunnelChildCheck, local_url: &str) -> (r:
    TunnelStart)
    requires
        tunnel_wf(*old(runtime)),
    ensures
        tunnel_wf(*final(runtime)),
        health_checked(*old(runtime), check, *final(runtime)),
        ({
            let s = final(runtime).status;
            if s.running && s.local_url@ == local_url@ {
                if s.ready {
                    r == TunnelStart::Ready(s)
                } else {
                    r is Wait
                }
            } else {
                r is Launch
            }
        }),
{
    match running_status_for_local_url(runtime, check, local_url) {
        Some(status) => {
            if status.ready {
                TunnelStart::Ready(status)
            } else {
                TunnelStart::Wait
            }
        },
        None => TunnelStart::Launch,
    }
}

/// What one round of waiting for the public URL does.
pub enum WaitStep {
    /// The tunnel stopped: answer its status.
    Stopped(HttpsTunnelStatus),
    /// Probe the public URL.
    Probe(String),
    /// No URL yet: sleep and look again.
    Sleep,
}

/// One round of waiting for the public URL, given the current status.
pub fn wait_step(status: &HttpsTunnelStatus) -> (w: WaitStep)
    ensures
        !status.running ==> w == WaitStep::Stopped(*status),
        status.running ==> match status.url {
            Some(u) => w matches WaitStep::Probe(x) && x == u,
            None => w is Sleep,
        },
{
    if !status.running {
        return WaitStep::Stopped(status.duplicate());
    }
    match &status.url {
        Some(u) => WaitStep::Probe(u.clone()),
        None => WaitStep::Sleep,
    }
}

/// The number of rounds spent waiting for the public URL.
pub const PUBLIC_URL_WAIT_ATTEMPTS: usize = 120;

/// The delay between rounds (milliseconds).
pub const PUBLIC_URL_WAIT_DELAY_MS: u64 = 250;

/// The timeout of one probe of the public URL (milliseconds).
pub const PUBLIC_URL_PROBE_TIMEOUT_MS: u64 = 2000;

/// A probe answered: the public URL is reachable when the status code is
/// below 500.
pub fn probe_ready(status_code: u16) -> (b: bool)
    ensures
        b == (status_code < 500),
{
    status_code < 500
}


/// The folder of the runtime directory that `cloudflared` is installed into.
pub const CLOUDFLARED_COMPONENT: &'static str = "cloudflared";

/// The log file of the tunnel, in the logs directory.
pub const TUNNEL_LOG_NAME: &'static str = "https-tunnel.log";

/// The first line of a fresh tunnel log.
pub const TUNNEL_LOG_HEADER: &'static str = "CHAMP HTTPS tunnel log";

/// The name of the `cloudflared` executable, as text.
pub open spec fn cloudflared_exe(windows: bool) -> Seq<char> {
    if windows {
        "cloudflared.exe"@
    } else {
        "cloudflared"@
    }
}

/// Where an installed `cloudflared` is looked for, in order: its own folder
/// of the runtime directory, the runtime directory, and its `bin` folder.
pub open spec fn cloudflared_candidates(runtime_dir: Seq<char>, windows: bool) -> Seq<Seq<char>> {
    let exe = cloudflared_exe(windows);
    seq![
        join_spec(join_spec(runtime_dir, "cloudflared"@), exe),
        join_spec(runtime_dir, exe),
        join_spec(join_spec(runtime_dir, "bin"@), exe),
    ]
}

/// The paths where an installed `cloudflared` is looked for.
pub fn cloudflared_candidate_paths(runtime_dir: &str, windows: bool) -> (r: Vec<String>)
    ensures
        texts(r@) == cloudflared_candidates(runtime_dir@, windows),
{
    let exe = cloudflared_executable_name(windows);
    let own = join_path(runtime_dir, CLOUDFLARED_COMPONENT);
    let bin = join_path(runtime_dir, "bin");
    let v = vec![join_path(own.as_str(), exe), join_path(runtime_dir, exe), join_path(bin.as_str(), exe)];
    assert(texts(v@) =~= cloudflared_candidates(runtime_dir@, windows));
    v
}

/// Finds `cloudflared`: the first candidate that `present` finds, else the
/// one on the search path where `system_available` says it runs, else none.
/// The search path is asked only where no candidate is present.
pub fn detect_cloudflared<F: Fn(&str) -> bool, G: FnOnce() -> bool>(
    runtime_dir: &str,
    windows: bool,
    present: &F,
    system_available: G,
) -> (r: Option<String>)
    requires
        forall|s: &str| call_requires(*present, (s,)),
        call_requires(system_available, ()),
    ensures
        ({
            let cands = cloudflared_candidates(runtime_dir@, windows);
            ||| exists|i: int| #[trigger] picks(*present, cands, i) && (r matches Some(p) && p@ == cands[i])
            ||| none_present(*present, cands) && call_ensures(system_available, (), true) && (r matches Some(
                p,
            ) && p@ == "cloudflared"@)
            ||| none_present(*present, cands) && call_ensures(system_available, (), false) && r is None
        }),
{
    let cands = cloudflared_candidate_paths(runtime_dir, windows);
    match first_present(&cands, present) {
        Some(i) => {
            let p = cands[i].clone();
            assert(p@ == texts(cands@)[i as int]);
            Some(p)
        },
        None => {
            if system_available() {
                Some("cloudflared".to_string())
            } else {
                None
            }
        },
    }
}

/// Where `cloudflared` is downloaded to and installed.
pub struct CloudflaredInstall {
    /// The folder it is installed into.
    pub install_dir: String,
    /// The installed executable.
    pub target: String,
    /// The downloaded file.
    pub temp: String,
    /// Whether the download is a gzip tar archive that holds it.
    pub archive_tgz: bool,
}

/// Where `cloudflared` is downloaded to and installed, for the release of an
/// operating system and architecture (as Rust names them).
pub fn cloudflared_install(runtime_dir: &str, os: &str, arch: &str) -> (r: Result<
    (CloudflaredDownload, CloudflaredInstall),
    String,
>)
    ensures
        match cloudflared_release(os@, arch@) {
            Some((url, temp, tgz)) => r matches Ok((d, inst)) && d.url@ == url && d.temp_file_name@ == temp
                && d.archive_tgz == tgz && inst.install_dir@ == join_spec(runtime_dir@, "cloudflared"@)
                && inst.target@ == join_spec(inst.install_dir@, cloudflared_exe(os@ == "windows"@))
                && inst.temp@ == join_spec(inst.install_dir@, temp) && inst.archive_tgz == tgz,
            None => r matches Err(e) && e@ == "Automatic HTTPS tunnel runtime is not available for "@ + os@
                + "/"@ + arch@,
        },
{
    let download = cloudflared_download(os, arch)?;
    let install_dir = join_path(runtime_dir, CLOUDFLARED_COMPONENT);
    let windows = crate::packages::same_text(os, "windows");
    let target = join_path(install_dir.as_str(), cloudflared_executable_name(windows));
    let temp = join_path(install_dir.as_str(), download.temp_file_name.as_str());
    let tgz = download.archive_tgz;
    Ok((download, CloudflaredInstall { install_dir, target, temp, archive_tgz: tgz }))
}

/// An archive member is the `cloudflared` executable: its last path
/// component is `cloudflared`.
pub fn is_cloudflared_member(path: &str) -> (b: bool)
    ensures
        b == (file_name_of(path@) == "cloudflared"@),
{
    let n = file_name(path);
    let c = chars_of("cloudflared");
    eq_chars(n.as_slice(), c.as_slice())
}

/// The tunnel log: in the logs directory.
pub fn tunnel_log_path(logs_dir: &str) -> (r: String)
    ensures
        r@ == join_spec(logs_dir@, "https-tunnel.log"@),
{
    join_path(logs_dir, TUNNEL_LOG_NAME)
}

/// The public URL is shown as ready only after it answered: no line of
/// `cloudflared` output and no health check makes the tunnel ready, and a
/// newly reported URL is never ready.
pub proof fn lemma_only_a_probe_makes_ready(
    s: HttpsTunnelStatus,
    line: Seq<char>,
    f: HttpsTunnelStatus,
    t: TunnelRuntime,
    check: TunnelChildCheck,
    g: TunnelRuntime,
)
    ensures
        output_recorded(s, line, f) && !s.ready ==> !f.ready,
        output_recorded(s, line, f) && trycloudflare_url(line) is Some ==> !f.ready,
        health_checked(t, check, g) && !t.status.ready ==> !g.status.ready,
{
}

} // verus!



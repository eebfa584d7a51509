use champ::tunnel::{
    cloudflared_candidate_paths, cloudflared_install, detect_cloudflared, is_cloudflared_member, tunnel_log_path,
    cloudflared_args, cloudflared_download, cloudflared_executable_name, extract_trycloudflare_url,
    get_https_tunnel_status, mark_public_url_ready, mark_public_url_timeout, plan_tunnel_start, probe_ready,
    record_tunnel_output, stop_https_tunnel, tunnel_local_url, wait_step, TunnelChildCheck, TunnelRuntime,
    TunnelStart, WaitStep,
};

#[test]
fn extracts_trycloudflare_url_from_log_line() {
    let line = "Visit it at: https://demo-random.trycloudflare.com";
    assert_eq!(
        extract_trycloudflare_url(line).as_deref(),
        Some("https://demo-random.trycloudflare.com")
    );
}

#[test]
fn ignores_non_trycloudflare_https_urls() {
    assert!(extract_trycloudflare_url("docs: https://example.com").is_none());
}

#[test]
fn tunnel_points_at_the_local_web_port() {
    assert_eq!(tunnel_local_url(8080), "http://127.0.0.1:8080");
    let args = cloudflared_args("http://127.0.0.1:8080");
    assert!(args.iter().any(|a| a == "--url"));
    assert!(args.iter().any(|a| a == "http://127.0.0.1:8080"));
}

#[test]
fn stopping_clears_the_public_url() {
    let mut rt = started_runtime();
    record_tunnel_output(&mut rt, "https://x.trycloudflare.com");
    let ready = mark_public_url_ready(&mut rt);
    assert!(ready.ready);
    let s = stop_https_tunnel(&mut rt);
    assert!(!s.running && !s.ready);
    assert!(s.url.is_none());
    assert!(!rt.has_child);
}

fn started_runtime() -> TunnelRuntime {
    let mut rt = TunnelRuntime::new();
    champ::tunnel::tunnel_started(&mut rt, "http://127.0.0.1:8080".to_string(), "/logs/tunnel.log".to_string(), 42);
    rt
}

#[test]
fn a_started_tunnel_runs_without_a_url() {
    let rt = started_runtime();
    assert!(rt.has_child);
    assert!(rt.status.running && !rt.status.ready);
    assert_eq!(rt.status.url, None);
    assert_eq!(rt.status.pid, Some(42));
    assert_eq!(rt.status.log_path.as_deref(), Some("/logs/tunnel.log"));
}

#[test]
fn tunnel_output_sets_the_url_or_the_error() {
    let mut rt = started_runtime();
    record_tunnel_output(&mut rt, "  ERR failed to connect to the edge  ");
    assert_eq!(rt.status.error.as_deref(), Some("ERR failed to connect to the edge"));
    record_tunnel_output(&mut rt, "INF |  https://calm-sea.trycloudflare.com  |");
    assert_eq!(rt.status.url.as_deref(), Some("https://calm-sea.trycloudflare.com"));
    assert_eq!(rt.status.error, None);
    record_tunnel_output(&mut rt, "ERR panic later on");
    assert_eq!(rt.status.error, None);
    record_tunnel_output(&mut rt, "INF registered connection");
    assert_eq!(rt.status.url.as_deref(), Some("https://calm-sea.trycloudflare.com"));
}

#[test]
fn tunnel_health_checks() {
    let mut rt = started_runtime();
    let s = get_https_tunnel_status(&mut rt, TunnelChildCheck::Running);
    assert!(s.running);
    let s = get_https_tunnel_status(&mut rt, TunnelChildCheck::Exited("exit status: 1".to_string()));
    assert!(!s.running && !s.ready);
    assert_eq!(s.pid, None);
    assert_eq!(s.error.as_deref(), Some("HTTPS tunnel exited with exit status: 1"));
    assert!(!rt.has_child);

    let mut rt = started_runtime();
    let s = get_https_tunnel_status(&mut rt, TunnelChildCheck::CheckFailed("denied".to_string()));
    assert!(!s.running);
    assert_eq!(s.error.as_deref(), Some("Failed to check HTTPS tunnel: denied"));
    assert!(rt.has_child);
}

#[test]
fn tunnel_start_plans() {
    let mut rt = started_runtime();
    assert!(matches!(plan_tunnel_start(&mut rt, TunnelChildCheck::Running, "http://127.0.0.1:8080"), TunnelStart::Wait));
    assert!(matches!(plan_tunnel_start(&mut rt, TunnelChildCheck::Running, "http://127.0.0.1:9090"), TunnelStart::Launch));
    record_tunnel_output(&mut rt, "https://calm-sea.trycloudflare.com");
    mark_public_url_ready(&mut rt);
    match plan_tunnel_start(&mut rt, TunnelChildCheck::Running, "http://127.0.0.1:8080") {
        TunnelStart::Ready(s) => assert!(s.ready && s.running),
        _ => panic!("expected a ready tunnel"),
    }
    let s = mark_public_url_timeout(&mut rt);
    assert!(!s.ready);
    assert_eq!(
        s.error.as_deref(),
        Some("Timed out waiting for the public HTTPS domain to become reachable. Stop and start HTTPS to request a fresh tunnel.")
    );
    let mut idle = TunnelRuntime::new();
    assert!(matches!(plan_tunnel_start(&mut idle, TunnelChildCheck::Running, "http://127.0.0.1:8080"), TunnelStart::Launch));
}

#[test]
fn waiting_for_the_public_url() {
    let mut rt = started_runtime();
    assert!(matches!(wait_step(&rt.status), WaitStep::Sleep));
    rt.status.url = Some("https://a.trycloudflare.com".to_string());
    match wait_step(&rt.status) {
        WaitStep::Probe(u) => assert_eq!(u, "https://a.trycloudflare.com"),
        _ => panic!("expected a probe"),
    }
    rt.status.running = false;
    assert!(matches!(wait_step(&rt.status), WaitStep::Stopped(_)));
    assert!(probe_ready(200) && probe_ready(404) && probe_ready(499));
    assert!(!probe_ready(500) && !probe_ready(502));
}

#[test]
fn cloudflared_releases_by_platform() {
    let d = cloudflared_download("linux", "x86_64").unwrap();
    assert_eq!(d.url, "https://github.com/cloudflare/cloudflared/releases/latest/download/cloudflared-linux-amd64");
    assert_eq!(d.temp_file_name, "cloudflared-download");
    assert!(!d.archive_tgz);
    let d = cloudflared_download("macos", "aarch64").unwrap();
    assert_eq!(d.url, "https://github.com/cloudflare/cloudflared/releases/latest/download/cloudflared-darwin-arm64.tgz");
    assert!(d.archive_tgz);
    let d = cloudflared_download("windows", "x86_64").unwrap();
    assert_eq!(d.temp_file_name, "cloudflared-download.exe");
    assert_eq!(
        cloudflared_download("freebsd", "x86_64").err().as_deref(),
        Some("Automatic HTTPS tunnel runtime is not available for freebsd/x86_64")
    );
    assert_eq!(cloudflared_executable_name(true), "cloudflared.exe");
    assert_eq!(cloudflared_executable_name(false), "cloudflared");
}

#[test]
fn cloudflared_is_looked_for_in_the_runtime_directory() {
    assert_eq!(
        cloudflared_candidate_paths("/rt", false),
        vec!["/rt/cloudflared/cloudflared", "/rt/cloudflared", "/rt/bin/cloudflared"]
    );
    assert_eq!(cloudflared_candidate_paths("C:\\rt\\", true)[1], "C:\\rt\\cloudflared.exe");
}

#[test]
fn cloudflared_detection_prefers_installed_copies() {
    let found = detect_cloudflared("/rt", false, &|p: &str| p == "/rt/bin/cloudflared", || panic!("not asked"));
    assert_eq!(found.as_deref(), Some("/rt/bin/cloudflared"));
    assert_eq!(detect_cloudflared("/rt", false, &|_p: &str| false, || true).as_deref(), Some("cloudflared"));
    assert_eq!(detect_cloudflared("/rt", false, &|_p: &str| false, || false), None);
}

#[test]
fn cloudflared_install_locations() {
    let (download, install) = cloudflared_install("/rt", "macos", "x86_64").unwrap();
    assert!(download.archive_tgz);
    assert_eq!(install.install_dir, "/rt/cloudflared");
    assert_eq!(install.target, "/rt/cloudflared/cloudflared");
    assert_eq!(install.temp, "/rt/cloudflared/cloudflared-download.tgz");
    let (_, install) = cloudflared_install("/rt", "windows", "aarch64").unwrap();
    assert_eq!(install.target, "/rt/cloudflared/cloudflared.exe");
    assert_eq!(install.temp, "/rt/cloudflared/cloudflared-download.exe");
    assert_eq!(
        cloudflared_install("/rt", "linux", "riscv64").err().as_deref(),
        Some("Automatic HTTPS tunnel runtime is not available for linux/riscv64")
    );
}

#[test]
fn cloudflared_archive_member_and_log() {
    assert!(is_cloudflared_member("cloudflared"));
    assert!(is_cloudflared_member("./release/cloudflared"));
    assert!(!is_cloudflared_member("cloudflared.sig"));
    assert!(!is_cloudflared_member("cloudflared/README"));
    assert_eq!(tunnel_log_path("/d/logs"), "/d/logs/https-tunnel.log");
}

#[test]
fn a_new_public_url_waits_for_its_probe() {
    let mut rt = started_runtime();
    record_tunnel_output(&mut rt, "https://first.trycloudflare.com");
    mark_public_url_ready(&mut rt);
    assert!(rt.status.ready);
    record_tunnel_output(&mut rt, "INF https://second.trycloudflare.com registered");
    assert!(!rt.status.ready);
    assert_eq!(rt.status.url.as_deref(), Some("https://second.trycloudflare.com"));
    let s = get_https_tunnel_status(&mut rt, TunnelChildCheck::Running);
    assert!(!s.ready);
}

#[test]
fn ready_status_always_runs_with_a_url() {
    let mut rt = started_runtime();
    record_tunnel_output(&mut rt, "https://x.trycloudflare.com");
    mark_public_url_ready(&mut rt);
    let s = get_https_tunnel_status(&mut rt, TunnelChildCheck::Running);
    assert!(s.ready && s.running && s.url.is_some());
    let s = get_https_tunnel_status(&mut rt, TunnelChildCheck::Exited("exit status: 0".to_string()));
    assert!(!rt.has_child);
    assert!(!s.running && !s.ready && s.pid.is_none());
}

#[test]
fn marking_ready_needs_a_running_tunnel_with_a_url() {
    let mut idle = TunnelRuntime::new();
    let s = mark_public_url_ready(&mut idle);
    assert!(!s.ready && !s.running);
    assert!(!idle.status.ready);

    let mut started = started_runtime();
    let s = mark_public_url_ready(&mut started);
    assert!(s.running && !s.ready);
    assert_eq!(s.url, None);
}

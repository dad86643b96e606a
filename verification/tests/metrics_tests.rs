use orbit::config::Config;
use orbit::host::HostKind;
use orbit::metrics::{
    dashboard_lines, fmt_gib, fmt_gib_u, local_mem_bytes, local_specs, mem_from_sysctl, mem_total_kb, offloaded_total,
    remote_load, remote_metrics, stats_targets, EngineInfo, RemoteMetrics,
};

fn float_gib(bytes: u64) -> String {
    format!("{:.1} GiB", bytes as f64 / 1024.0 / 1024.0 / 1024.0)
}

#[test]
fn gib_exact_values() {
    assert_eq!(fmt_gib(0), "?");
    assert_eq!(fmt_gib(-5), "?");
    assert_eq!(fmt_gib(1073741824), "1.0 GiB");
    assert_eq!(fmt_gib(17179869184), "16.0 GiB");
    assert_eq!(fmt_gib(1610612736), "1.5 GiB");
    assert_eq!(fmt_gib_u(0), "0.0 GiB");
    assert_eq!(fmt_gib_u(1), "0.0 GiB");
}

#[test]
fn gib_ties_round_to_even() {
    // 0.25 GiB and 0.75 GiB sit exactly between two tenths.
    assert_eq!(fmt_gib_u(268435456), "0.2 GiB");
    assert_eq!(fmt_gib_u(805306368), "0.8 GiB");
    assert_eq!(fmt_gib_u(268435456), float_gib(268435456));
    assert_eq!(fmt_gib_u(805306368), float_gib(805306368));
}

#[test]
fn gib_matches_float_formatting() {
    let mut x: u64 = 1;
    for _ in 0..2000 {
        assert_eq!(fmt_gib_u(x), float_gib(x), "bytes = {x}");
        x = x.wrapping_mul(6364136223846793005).wrapping_add(1442695040888963407);
    }
    for shift in 0..64u32 {
        for delta in [0u64, 1, 3, 1 << 20] {
            let x = (1u64 << shift).wrapping_add(delta);
            assert_eq!(fmt_gib_u(x), float_gib(x), "bytes = {x}");
            let y = (1u64 << shift).wrapping_sub(delta);
            assert_eq!(fmt_gib_u(y), float_gib(y), "bytes = {y}");
        }
    }
    assert_eq!(fmt_gib_u(u64::MAX), float_gib(u64::MAX));
    assert_eq!(fmt_gib(i64::MAX), float_gib(i64::MAX as u64));
}

#[test]
fn load_average_linux_and_macos() {
    assert_eq!(
        remote_load(" 10:01:02 up 3 days,  2 users,  load average: 0.52, 0.48, 0.44").as_deref(),
        Some("0.52")
    );
    assert_eq!(
        remote_load("10:01  up 3 days, 2 users, load averages: 1.20 1.10 0.95").as_deref(),
        Some("1.20")
    );
}

#[test]
fn load_average_missing() {
    assert_eq!(remote_load("no figures here"), None);
    assert_eq!(remote_load("load average:   ,  "), None);
    assert_eq!(remote_load(""), None);
}

#[test]
fn load_average_stops_at_second_marker() {
    assert_eq!(remote_load("load average average 2.0").as_deref(), None);
    assert_eq!(remote_load("average: 3.5 average 2.0").as_deref(), Some("3.5"));
}

#[test]
fn local_specs_from_probes() {
    let s = local_specs(Some("  mac-mini\n"), Some(8), "macos", "aarch64", 17179869184);
    assert_eq!(s.hostname, "mac-mini");
    assert_eq!(s.os_arch, "macos/aarch64");
    assert_eq!(s.cores, 8);
    assert_eq!(s.mem_bytes, 17179869184);
    let t = local_specs(Some("   "), None, "linux", "x86_64", 0);
    assert_eq!(t.hostname, "this-machine");
    assert_eq!(t.cores, 0);
    assert_eq!(local_specs(None, None, "a", "b", 1).hostname, "this-machine");
}

#[test]
fn memory_from_sysctl_or_meminfo() {
    assert_eq!(local_mem_bytes(Some("17179869184\n"), None), 17179869184);
    assert_eq!(local_mem_bytes(Some("0"), Some("MemTotal:       16384 kB\n")), 16384 * 1024);
    assert_eq!(local_mem_bytes(Some("garbage"), Some("MemFree: 1 kB\nMemTotal: 2 kB\n")), 2048);
    assert_eq!(local_mem_bytes(None, None), 0);
    assert_eq!(local_mem_bytes(None, Some("MemTotal: lots\nMemTotal: 3 kB")), 3072);
    assert_eq!(mem_total_kb("MemTotal:\t+42 kB"), Some(42));
    assert_eq!(mem_total_kb(" MemTotal: 42 kB"), None);
    assert_eq!(mem_total_kb(""), None);
}

#[test]
fn remote_metrics_defaults() {
    let info = EngineInfo {
        server_version: None,
        ncpu: Some(16),
        mem_total: None,
        images: Some(3),
        containers: None,
        containers_running: Some(2),
    };
    let m = remote_metrics(&info, 99);
    assert_eq!(m.version, "?");
    assert_eq!(m.ncpu, 16);
    assert_eq!(m.mem_total, 0);
    assert_eq!(m.images, 3);
    assert_eq!(m.containers, 0);
    assert_eq!(m.running, 2);
    assert_eq!(m.offloaded_mem, 99);
}

#[test]
fn samples_first_forty_with_ids() {
    let mut ids: Vec<Option<String>> = (0..45).map(|i| Some(format!("c{i}"))).collect();
    ids[1] = None;
    let t = stats_targets(&ids);
    assert_eq!(t.len(), 39);
    assert_eq!(t[0], "c0");
    assert_eq!(t[1], "c2");
    assert_eq!(t[38], "c39");
    assert_eq!(offloaded_total(&vec![Some(5), None, Some(7)]), 12);
    assert_eq!(offloaded_total(&vec![]), 0);
}

fn cfg() -> Config {
    Config {
        host_user: "dany".to_string(),
        host_addr: "10.0.0.2".to_string(),
        ssh_port: 22,
        adapter: HostKind::Unix,
        remote_socket: "/var/run/docker.sock".to_string(),
        context_name: "orbit".to_string(),
        previous_context: None,
    }
}

#[test]
fn dashboard_without_remote() {
    let local = local_specs(Some("laptop"), Some(4), "macos", "aarch64", 8589934592);
    let lines = dashboard_lines(&cfg(), &local, &None, None);
    assert_eq!(lines.len(), 4);
    let bar = format!("\u{1b}[36m{}\u{1b}[39m", "\u{2500}".repeat(64));
    assert_eq!(lines[0], bar);
    assert_eq!(lines[3], bar);
    assert_eq!(
        lines[1],
        "  \u{1b}[1mthis machine\u{1b}[0m   \u{1b}[37mlaptop\u{1b}[39m \u{b7} macos/aarch64 \u{b7} 4 cores \u{b7} 8.0 GiB"
    );
    assert_eq!(
        lines[2],
        "  \u{1b}[1mthe host\u{1b}[0m        \u{1b}[37mdany@10.0.0.2\u{1b}[39m \u{b7} (bring it up to read remote metrics)"
    );
}

#[test]
fn dashboard_with_remote() {
    let local = local_specs(Some("laptop"), Some(4), "macos", "aarch64", 8589934592);
    let r = RemoteMetrics {
        version: "27.1".to_string(),
        ncpu: 16,
        mem_total: 34359738368,
        images: 12,
        containers: 5,
        running: 3,
        offloaded_mem: 536870912,
    };
    let lines = dashboard_lines(&cfg(), &local, &Some(r), Some("0.52"));
    assert_eq!(lines.len(), 7);
    assert_eq!(
        lines[2],
        "  \u{1b}[1mthe host\u{1b}[0m        \u{1b}[37mdany@10.0.0.2\u{1b}[39m \u{b7} docker 27.1 \u{b7} 12 images \u{b7} 3 running"
    );
    assert_eq!(
        lines[3],
        "  \u{1b}[1mrouting\u{1b}[0m        docker \u{2192} orbit context \u{b7} socket /var/run/docker.sock"
    );
    assert_eq!(
        lines[4],
        "  \u{1b}[35m\u{1b}[1moffloading\u{1b}[0m\u{1b}[39m     \u{1b}[35m3 containers\u{1b}[39m \u{b7} 16 cores \u{b7} load 0.52 \u{b7} your laptop stays free \u{1b}[35m\u{2665}\u{1b}[39m"
    );
    assert_eq!(
        lines[5],
        "                \u{1b}[35m0.5 GiB\u{1b}[39m of 32.0 GiB used by containers on the host"
    );
}

#[test]
fn sysctl_memory_size() {
    assert_eq!(mem_from_sysctl(Some(" 17179869184\n")), Some(17179869184));
    assert_eq!(mem_from_sysctl(Some("0")), None);
    assert_eq!(mem_from_sysctl(Some("n/a")), None);
    assert_eq!(mem_from_sysctl(None), None);
    // With a positive sysctl size, /proc/meminfo is never consulted.
    assert_eq!(
        local_mem_bytes(Some("8"), Some("MemTotal: 99999999999999999 kB\n")),
        8
    );
}

use xc_supervisor::hosts::hosts_content;
use xc_supervisor::network::{HostEntry, IpAddress};
use xc_supervisor::paths::{exec_candidates, rebase, split_search_path};

#[test]
fn hosts_content_starts_with_the_fixed_localhost_lines() {
    let entries = vec![
        HostEntry { ip_addr: IpAddress::V4(10, 0, 0, 5), hostname: "db".to_string() },
        HostEntry {
            ip_addr: IpAddress::V6(0xfe80, 0, 0, 0, 0, 0, 0, 9),
            hostname: "cache".to_string(),
        },
    ];
    let content = hosts_content(&entries);
    let lines: Vec<&str> = content.lines().collect();
    assert_eq!(lines[0], "::1 localhost");
    assert_eq!(lines[1], "127.0.0.1 localhost");
    assert_eq!(
        content,
        "::1 localhost\n127.0.0.1 localhost\n10.0.0.5 db\nfe80:0:0:0:0:0:0:9 cache\n"
    );
}

#[test]
fn hosts_content_without_entries_is_only_the_prefix() {
    let content = hosts_content(&Vec::new());
    assert_eq!(content, "::1 localhost\n127.0.0.1 localhost\n");
}

#[test]
fn split_search_path_on_colons() {
    let parts = split_search_path("/bin:/usr/bin:/sbin");
    assert_eq!(parts, vec!["/bin", "/usr/bin", "/sbin"]);
    assert_eq!(split_search_path(""), vec![""]);
    assert_eq!(split_search_path("/bin:"), vec!["/bin", ""]);
}

#[test]
fn rebase_under_the_container_root() {
    assert_eq!(rebase("/jails/a", "/bin"), "/jails/a/bin");
    assert_eq!(rebase("/jails/a", "bin"), "/jails/a/bin");
}

#[test]
fn candidates_for_an_absolute_program() {
    let c = exec_candidates("/jails/a", "/bin:/usr/bin", "/sbin/init");
    assert_eq!(c, vec!["/jails/a/sbin/init"]);
}

#[test]
fn candidates_for_a_relative_program_follow_the_search_path() {
    let c = exec_candidates("/jails/a", "/bin:/usr/bin", "sh");
    assert_eq!(c, vec!["/jails/a/bin/sh", "/jails/a/usr/bin/sh"]);
}

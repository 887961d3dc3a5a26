use maestro::command::Action;
use maestro::model::{ContainerSpec, Credential, FailureCause, HostDescriptor};
use maestro::remote::{build_ssh_command, invocation, not_started, response, ssh_invocation};
use maestro::shell::{render_command_line, shell_quote};
use maestro::text::{decimal, is_whitespace, to_chars, trim};

fn strings(items: &[&str]) -> Vec<String> {
    items.iter().map(|s| s.to_string()).collect()
}

#[test]
fn decimal_of_zero_is_one_digit() {
    assert_eq!(decimal(0), "0");
}

#[test]
fn decimal_has_no_leading_zero() {
    assert_eq!(decimal(7), "7");
    assert_eq!(decimal(10), "10");
    assert_eq!(decimal(4096), "4096");
    assert_eq!(decimal(4294967295), "4294967295");
    assert_eq!(decimal(u64::MAX), "18446744073709551615");
}

#[test]
fn decimal_agrees_with_std() {
    for n in [1u64, 9, 11, 99, 100, 101, 12345, 999999, 1000000] {
        assert_eq!(decimal(n), n.to_string());
    }
}

#[test]
fn chars_come_in_order() {
    assert_eq!(to_chars("a-ß"), vec!['a', '-', 'ß']);
    assert!(to_chars("").is_empty());
}

#[test]
fn trim_drops_both_ends_only() {
    assert_eq!(trim("  web-0\n"), "web-0");
    assert_eq!(trim("\t a b \r\n"), "a b");
    assert_eq!(trim("web"), "web");
    assert_eq!(trim(""), "");
    assert_eq!(trim(" \n\t"), "");
}

#[test]
fn trim_agrees_with_std_on_unicode_space() {
    for s in ["\u{a0}x\u{2003}", "\u{3000}\u{85}y z\u{1680}", "\u{200b}x", "\u{feff}x "] {
        assert_eq!(trim(s), s.trim());
    }
}

#[test]
fn whitespace_agrees_with_std() {
    for u in 0u32..0x3100 {
        if let Some(c) = char::from_u32(u) {
            assert_eq!(is_whitespace(c), c.is_whitespace(), "U+{:04X}", u);
        }
    }
}

#[test]
fn quote_wraps_in_single_quotes() {
    assert_eq!(shell_quote("nginx"), "'nginx'");
    assert_eq!(shell_quote(""), "''");
    assert_eq!(shell_quote("a b"), "'a b'");
    assert_eq!(shell_quote("$HOME; rm -rf /"), "'$HOME; rm -rf /'");
}

#[test]
fn quote_escapes_single_quotes() {
    assert_eq!(shell_quote("it's"), "'it'\\''s'");
    assert_eq!(shell_quote("'"), "''\\'''");
    assert_eq!(shell_quote("''"), "''\\'''\\'''");
}

#[test]
fn command_line_joins_with_spaces() {
    assert_eq!(render_command_line(&strings(&[])), "");
    assert_eq!(render_command_line(&strings(&["docker"])), "'docker'");
    assert_eq!(
        render_command_line(&strings(&["docker", "pull", "nginx:1.25"])),
        "'docker' 'pull' 'nginx:1.25'"
    );
    assert_eq!(render_command_line(&strings(&["echo", "", "x'y"])), "'echo' '' 'x'\\''y'");
}

#[test]
fn actions_have_their_argument_vectors() {
    assert_eq!(Action::Probe.argv(), strings(&["docker", "--version"]));
    assert_eq!(
        Action::Install.argv(),
        strings(&[
            "sh",
            "-c",
            "curl -fsSL https://get.docker.com -o get-docker.sh && sudo sh get-docker.sh && sudo usermod -aG docker $USER",
        ])
    );
    assert_eq!(
        Action::Pull { image: "nginx".to_string() }.argv(),
        strings(&["docker", "pull", "nginx"])
    );
    assert_eq!(
        Action::Remove { name: "web-0".to_string() }.argv(),
        strings(&["docker", "rm", "-f", "web-0"])
    );
    assert_eq!(
        Action::Run { name: "web-0".to_string(), image: "nginx".to_string() }.argv(),
        strings(&["docker", "run", "-d", "--name", "web-0", "nginx"])
    );
    assert_eq!(
        Action::List { name: "web-0".to_string() }.argv(),
        strings(&["docker", "ps", "--filter", "name=web-0", "--format", "{{.Names}}"])
    );
}

#[test]
fn a_configured_value_stays_one_argument() {
    let argv = Action::Pull { image: "nginx; reboot".to_string() }.argv();
    assert_eq!(argv.len(), 3);
    assert_eq!(argv[2], "nginx; reboot");
}

#[test]
fn instance_names_carry_the_index() {
    let spec = ContainerSpec {
        image_name: "nginx".to_string(),
        container_name: "web".to_string(),
        instance_count: 12,
    };
    assert_eq!(spec.instance_name(0), "web-0");
    assert_eq!(spec.instance_name(11), "web-11");
    assert_eq!(spec.instance_name(u32::MAX), "web-4294967295");
}

fn key_host() -> HostDescriptor {
    HostDescriptor {
        address: "10.0.0.7".to_string(),
        username: "ops".to_string(),
        auth: Credential::KeyFile("/keys/id_ed25519".to_string()),
        ssh_port: Some(2222),
    }
}

fn password_host(password: &str) -> HostDescriptor {
    HostDescriptor {
        address: "10.0.0.8".to_string(),
        username: "root".to_string(),
        auth: Credential::Password(password.to_string()),
        ssh_port: None,
    }
}

#[test]
fn session_with_key_names_the_key() {
    assert_eq!(
        build_ssh_command(&key_host()),
        strings(&["ssh", "-i", "/keys/id_ed25519", "-p", "2222", "ops@10.0.0.7"])
    );
}

#[test]
fn session_with_password_keeps_it_out_of_the_arguments() {
    let host = password_host("hunter2-s3cret");
    let argv = build_ssh_command(&host);
    assert_eq!(
        argv,
        strings(&["sshpass", "-e", "ssh", "-o", "StrictHostKeyChecking=no", "root@10.0.0.8"])
    );
    let inv = ssh_invocation(&strings(&["docker", "--version"]), &host);
    assert_eq!(inv.password, Some("hunter2-s3cret".to_string()));
    for arg in &inv.argv {
        assert!(!arg.contains("hunter2-s3cret"));
    }
    let other = ssh_invocation(&strings(&["docker", "--version"]), &password_host("another"));
    assert_eq!(inv.argv, other.argv);
}

#[test]
fn remote_command_is_one_quoted_argument() {
    let inv = ssh_invocation(&strings(&["docker", "pull", "it's"]), &key_host());
    assert_eq!(inv.argv.len(), 7);
    assert_eq!(inv.argv[6], "'docker' 'pull' 'it'\\''s'");
    assert_eq!(inv.password, None);
}

#[test]
fn local_command_runs_as_it_stands() {
    let mut host = key_host();
    host.address = "localhost".to_string();
    assert!(host.is_local());
    let inv = invocation(&strings(&["docker", "--version"]), &host);
    assert_eq!(inv.argv, strings(&["docker", "--version"]));
    assert_eq!(inv.password, None);
    assert!(!key_host().is_local());
    let remote = invocation(&strings(&["docker", "--version"]), &key_host());
    assert_eq!(remote.argv[0], "ssh");
}

#[test]
fn port_defaults_to_22() {
    assert_eq!(password_host("x").port(), 22);
    assert_eq!(key_host().port(), 2222);
}

#[test]
fn process_endings_become_responses() {
    let remote = key_host();
    let mut local = key_host();
    local.address = "localhost".to_string();
    assert_eq!(response(&remote, Some(0), "out".into(), "err".into()).unwrap(), "out");
    let f = response(&remote, Some(1), "out".into(), "err".into()).unwrap_err();
    assert_eq!((f.stdout.as_str(), f.stderr.as_str(), f.cause), ("out", "err", FailureCause::NonZeroExit));
    let f = response(&remote, Some(255), String::new(), "timed out".into()).unwrap_err();
    assert_eq!(f.cause, FailureCause::Transport);
    let f = response(&local, Some(255), String::new(), String::new()).unwrap_err();
    assert_eq!(f.cause, FailureCause::NonZeroExit);
    let f = response(&remote, None, String::new(), String::new()).unwrap_err();
    assert_eq!(f.cause, FailureCause::NonZeroExit);
    let f = not_started("no such file".into()).unwrap_err();
    assert_eq!((f.stdout.as_str(), f.stderr.as_str(), f.cause), ("", "no such file", FailureCause::Transport));
}

use stm15::ssh_config::{parse_ssh_config, SshHost};

fn brief(host: &SshHost) -> (String, Option<String>, u16, Option<String>, Option<String>) {
    let h = host.clone();
    (h.name, h.hostname, h.port, h.user, h.identity_file)
}

fn some(s: &str) -> Option<String> {
    Some(s.to_string())
}

#[test]
fn a_host_has_what_its_block_sets() {
    let hosts = parse_ssh_config(
        "Host web\n  HostName web.example.org\n  Port 2222\n  User alice\n  IdentityFile ~/.ssh/web\n",
    );
    assert_eq!(hosts.len(), 1);
    assert_eq!(
        brief(&hosts[0]),
        ("web".to_string(), some("web.example.org"), 2222, some("alice"), some("~/.ssh/web"))
    );
}

#[test]
fn what_is_not_set_has_a_default() {
    for text in ["Host db", "Host db\n", "Host db\n\n# end"] {
        let hosts = parse_ssh_config(text);
        assert_eq!(hosts.len(), 1);
        assert_eq!(brief(&hosts[0]), ("db".to_string(), some("db"), 22, None, None));
    }
    assert!(parse_ssh_config("Host\n").is_empty());
}

#[test]
fn all_names_of_a_block_are_hosts() {
    let hosts = parse_ssh_config("Host a b  c\n User u\n");
    let names: Vec<String> = hosts.iter().map(|h| h.name.clone()).collect();
    assert_eq!(names, vec!["a", "b", "c"]);
    for h in &hosts {
        assert_eq!(h.hostname, some("a"));
        assert_eq!(h.user, some("u"));
    }
}

#[test]
fn the_wildcard_is_no_host() {
    assert!(parse_ssh_config("Host *\n  User root\n").is_empty());
    let hosts = parse_ssh_config("Host * a\n  User root\n");
    assert_eq!(hosts.len(), 1);
    assert_eq!(brief(&hosts[0]), ("a".to_string(), some("*"), 22, some("root"), None));
    assert_eq!(parse_ssh_config("Host *.example.org\n").len(), 1);
}

#[test]
fn match_blocks_are_skipped() {
    let hosts = parse_ssh_config(
        "Host a\n Port 1\nMatch user bob\n Port 2\n HostName x\nHost b\n Port 3\n",
    );
    assert_eq!(hosts.len(), 2);
    assert_eq!(brief(&hosts[0]), ("a".to_string(), some("a"), 1, None, None));
    assert_eq!(brief(&hosts[1]), ("b".to_string(), some("b"), 3, None, None));
    assert!(parse_ssh_config("Match all\n HostName x\n User y\n").is_empty());
}

#[test]
fn what_stands_before_the_first_block_is_dropped() {
    let hosts = parse_ssh_config("User nobody\nPort 99\nHost a\n");
    assert_eq!(brief(&hosts[0]), ("a".to_string(), some("a"), 22, None, None));
}

#[test]
fn comments_and_blank_lines_change_nothing() {
    let plain = parse_ssh_config("Host a\nPort 5\nUser u\n");
    let commented =
        parse_ssh_config("# one\n\nHost a\n   # two\nPort 5\n\t\nPort\nUser u\n#Port 6\n");
    assert_eq!(plain.len(), 1);
    assert_eq!(commented.len(), 1);
    assert_eq!(brief(&plain[0]), brief(&commented[0]));
}

#[test]
fn keywords_are_taken_in_any_case() {
    let hosts = parse_ssh_config("HOST a\nHOSTNAME h\nPoRt 7\nUSER u\nIDENTITYFILE k\n");
    assert_eq!(brief(&hosts[0]), ("a".to_string(), some("h"), 7, some("u"), some("k")));
}

#[test]
fn the_last_value_counts() {
    let hosts = parse_ssh_config("Host a\nHostName x\nHostName y\nPort 1\nPort 2\n");
    assert_eq!(brief(&hosts[0]), ("a".to_string(), some("y"), 2, None, None));
}

#[test]
fn a_port_that_cannot_be_read_is_the_usual_one() {
    for value in ["ssh", "70000", "-1", "= 2222", "22 23"] {
        let hosts = parse_ssh_config(&format!("Host a\nPort 1\nPort {value}\n"));
        assert_eq!(hosts[0].port, 22, "{value}");
    }
    assert_eq!(parse_ssh_config("Host a\nPort +2222\n")[0].port, 2222);
}

#[test]
fn line_ends_and_indents_do_not_matter() {
    let hosts = parse_ssh_config("\tHost a\r\n\u{a0} User\u{3000} u v \r\n");
    assert_eq!(brief(&hosts[0]), ("a".to_string(), some("a"), 22, some("u v"), None));
    assert!(parse_ssh_config("Host=a\n").is_empty());
    assert!(parse_ssh_config("").is_empty());
}

#[test]
fn keywords_that_are_not_known_are_ignored() {
    let hosts = parse_ssh_config("Host a\nForwardAgent yes\nHöst b\nUser u\n");
    assert_eq!(hosts.len(), 1);
    assert_eq!(brief(&hosts[0]), ("a".to_string(), some("a"), 22, some("u"), None));
}

#[test]
fn blocks_do_not_reach_each_other() {
    let first = "Host a\nUser u\nPort 1\n";
    let second = "Host b\nHostName h\n";
    let both = parse_ssh_config(&format!("{first}\n{second}"));
    let mut apart = parse_ssh_config(first);
    apart.append(&mut parse_ssh_config(second));
    assert_eq!(both.len(), 2);
    for (x, y) in both.iter().zip(apart.iter()) {
        assert_eq!(brief(x), brief(y));
    }
}

#[test]
fn the_looks_of_a_configuration_do_not_matter() {
    let plain = "Host web db\nHostName h\nPort 2222\nUser me\nMatch all\nPort 1\nHost x\nPort 3\n";
    let other = "# mine\n\n\tHOST web db\n  hostname h\n\n PORT 2222\n  # port\n\u{2003}uSeR me\nMATCH all\n  port 1\nhOST x\n\t\tpOrT 3\n#\n";
    let all = |text: &str| -> Vec<_> { parse_ssh_config(text).iter().map(brief).collect() };
    assert_eq!(all(plain), all(other));
    assert_eq!(all(plain).len(), 3);
    for end in ["", "# end", "# end\n\n", "\n  # end\n# end"] {
        assert_eq!(all(&format!("{plain}{end}")), all(plain));
    }
    assert_eq!(all(""), all("# nothing\n\n  # at all"));
}

#[test]
fn names_hold_no_white_space() {
    for h in parse_ssh_config("Host a\tb \u{a0} c\n") {
        assert_eq!(h.name.len(), 1);
    }
    assert!(parse_ssh_config("Host  \t \n").is_empty());
}

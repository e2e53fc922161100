use zoid::git::{head_branch, parse_numstat};

#[test]
fn parses_numstat_sums_and_counts_files() {
    let out = "12\t3\tsrc/a.rs\n0\t5\tsrc/b.rs\n7\t0\tCargo.toml\n";
    assert_eq!(parse_numstat(out), (19, 8, 3));
    assert_eq!(parse_numstat("-\t-\tlogo.png\n"), (0, 0, 1));
    assert_eq!(parse_numstat(""), (0, 0, 0));
}

#[test]
fn numstat_skips_blank_and_pathless_lines() {
    assert_eq!(parse_numstat("\n   \n3\t4\n1\t1\tf\r\n"), (1, 1, 1));
    assert_eq!(parse_numstat("+2\tx\tf\n"), (2, 0, 1));
}

#[test]
fn head_branch_reads_symbolic_ref() {
    assert_eq!(head_branch("ref: refs/heads/main\n"), Some("main".to_string()));
    assert_eq!(head_branch("  ref: refs/heads/feature/x  "), Some("feature/x".to_string()));
    assert_eq!(head_branch("0123456789abcdef\n"), None);
    assert_eq!(head_branch(""), None);
}

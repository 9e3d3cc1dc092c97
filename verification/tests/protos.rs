use buildkit_sdk::protos::{
    buildkit_file_url, buildkit_vendor_dir, ensure_no_extra_args, go_module_version_git_ref,
    join_path, module_entry_of, module_version, modules_url, normalize_version,
    other_repo_file_url, parse_command, parse_module_versions, parse_semver_tag,
    parse_update_version_flag, path_to_url_path, pinned_file_text, pinned_version,
    repo_vendor_dir, request_headers, split_words, strip_leading_vs, target_version,
    update_available, update_summary, vendored_repo, version_file, vtproto_ext_path,
    vtproto_ext_url, vtproto_git_ref, Command, BUILDKIT_LATEST_RELEASE_URL,
};
use buildkit_sdk::protos::{
    check_report, check_status, exit_code, shows_usage, sort_names, str_lt, vendored_repos, CommandStatus, USAGE,
};
use buildkit_sdk::text::trim_str;

fn strings(v: &[&str]) -> Vec<String> {
    v.iter().map(|s| s.to_string()).collect()
}

#[test]
fn normalize_version_accepts_missing_prefix() {
    assert_eq!(normalize_version("0.29.0").unwrap(), "v0.29.0");
    assert_eq!(normalize_version("v0.29.0").unwrap(), "v0.29.0");
}

#[test]
fn normalize_version_rejects_invalid_tags() {
    assert!(normalize_version("latest").is_err());
}

#[test]
fn parse_semver_tag_compares_versions() {
    assert!(parse_semver_tag("v0.30.0")
        .unwrap()
        .newer_than(&parse_semver_tag("v0.29.0").unwrap()));
}

#[test]
fn path_to_url_path_uses_forward_slashes() {
    assert_eq!(
        path_to_url_path("vendor/github.com/moby/buildkit"),
        "vendor/github.com/moby/buildkit"
    );
}

#[test]
fn go_module_pseudo_versions_use_commit_refs() {
    assert_eq!(
        go_module_version_git_ref("v0.6.1-0.20240319094008-0393e58bdf10"),
        "0393e58bdf10"
    );
    assert_eq!(go_module_version_git_ref("v0.29.0"), "v0.29.0");
}

#[test]
fn go_module_short_or_non_hex_suffixes_keep_the_version() {
    assert_eq!(go_module_version_git_ref("v1.0.0-rc1"), "v1.0.0-rc1");
    assert_eq!(
        go_module_version_git_ref("v1.0.0-0.2024-0393e58bdf1z"),
        "v1.0.0-0.2024-0393e58bdf1z"
    );
    assert_eq!(go_module_version_git_ref("x-ABCDEF012345"), "ABCDEF012345");
    assert_eq!(go_module_version_git_ref(""), "");
}

#[test]
fn normalize_version_trims_and_keeps_prerelease_and_build() {
    assert_eq!(
        normalize_version("  vv1.2.3-rc.1+build.5 \n").unwrap(),
        "v1.2.3-rc.1+build.5"
    );
    assert_eq!(
        normalize_version("latest").unwrap_err(),
        "invalid BuildKit version tag `latest`: unexpected character 'l' while parsing major version number"
    );
    assert_eq!(
        normalize_version(" 1.2 ").unwrap_err(),
        "invalid BuildKit version tag ` 1.2 `: unexpected end of input while parsing minor version number"
    );
}

#[test]
fn parse_semver_tag_reads_the_fields() {
    let v = parse_semver_tag("1.2.3-rc.1+b7").unwrap();
    assert_eq!((v.major(), v.minor(), v.patch()), (1, 2, 3));
    assert_eq!(v.pre(), "rc.1");
    assert_eq!(v.build(), "b7");
    assert_eq!(v.text(), "1.2.3-rc.1+b7");
    assert_eq!(
        parse_semver_tag("nope").err().unwrap(),
        "invalid BuildKit version tag `nope`: unexpected character 'n' while parsing major version number"
    );
}

#[test]
fn semver_order_of_releases_and_prereleases() {
    let rel = parse_semver_tag("v1.0.0").unwrap();
    let rc = parse_semver_tag("v1.0.0-rc.1").unwrap();
    let old = parse_semver_tag("v0.99.99").unwrap();
    assert!(rel.newer_than(&rc));
    assert!(!rc.newer_than(&rel));
    assert!(rc.newer_than(&old));
    assert!(!rel.newer_than(&parse_semver_tag("1.0.0").unwrap()));
}

#[test]
fn update_available_compares_latest_with_pinned() {
    assert_eq!(update_available("v0.30.0", "v0.29.0"), Ok(true));
    assert_eq!(update_available("v0.29.0", "v0.29.0"), Ok(false));
    assert_eq!(update_available("v0.28.5", "v0.29.0"), Ok(false));
    assert_eq!(
        update_available("bad", "also bad"),
        Err("invalid BuildKit version tag `bad`: unexpected character 'b' while parsing major version number".to_string())
    );
    assert_eq!(
        update_available("v1.0.0", "also bad"),
        Err("invalid BuildKit version tag `also bad`: unexpected character 'a' while parsing major version number".to_string())
    );
}

#[test]
fn pinned_version_reads_the_file_text() {
    assert_eq!(pinned_version(" v0.29.0\n").unwrap(), "v0.29.0");
    assert_eq!(pinned_version("0.29.1\r\n").unwrap(), "v0.29.1");
    assert_eq!(
        pinned_version("  main \n").unwrap_err(),
        "invalid BuildKit version tag `main`: unexpected character 'm' while parsing major version number"
    );
    assert_eq!(pinned_file_text("v0.29.0"), "v0.29.0\n");
}

#[test]
fn target_version_prefers_the_requested_tag() {
    assert_eq!(target_version("v0.29.0", None).unwrap(), "v0.29.0");
    assert_eq!(target_version("v0.29.0", Some("0.30.1")).unwrap(), "v0.30.1");
    assert!(target_version("v0.29.0", Some("next")).is_err());
}

#[test]
fn update_summary_says_whether_the_pin_moved() {
    assert_eq!(
        update_summary("v0.29.0", "v0.29.0"),
        "Pinned BuildKit version remains v0.29.0"
    );
    assert_eq!(
        update_summary("v0.29.0", "v0.30.0"),
        "Updated pinned BuildKit version v0.29.0 -> v0.30.0"
    );
}

#[test]
fn parse_command_reads_subcommands() {
    assert!(matches!(parse_command(&strings(&["check-protos"])), Ok(Command::CheckProtos)));
    assert!(matches!(parse_command(&strings(&["update-protos"])), Ok(Command::UpdateProtos(None))));
    match parse_command(&strings(&["update-protos", "--version", "v0.29.0"])) {
        Ok(Command::UpdateProtos(Some(v))) => assert_eq!(v, "v0.29.0"),
        _ => panic!("expected an update with a version"),
    }
    for h in ["help", "--help", "-h"] {
        assert!(matches!(parse_command(&strings(&[h])), Ok(Command::Help)));
    }
}

#[test]
fn parse_command_refuses_bad_command_lines() {
    assert_eq!(parse_command(&strings(&[])).err().unwrap(), "missing subcommand");
    assert_eq!(
        parse_command(&strings(&["build"])).err().unwrap(),
        "unknown subcommand `build`"
    );
    assert_eq!(
        parse_command(&strings(&["check-protos", "x", "y"])).err().unwrap(),
        "unexpected arguments: x y"
    );
    assert_eq!(
        parse_command(&strings(&["update-protos", "--ver"])).err().unwrap(),
        "expected `--version <tag>`, got `--ver`"
    );
    assert_eq!(
        parse_command(&strings(&["update-protos", "--version"])).err().unwrap(),
        "missing value for `--version`"
    );
    assert_eq!(
        parse_command(&strings(&["update-protos", "--version", "v1", "z"])).err().unwrap(),
        "unexpected arguments: z"
    );
}

#[test]
fn version_flag_and_extra_args() {
    let args = strings(&["a", "--version", "v2"]);
    assert_eq!(parse_update_version_flag(&args, 1).unwrap(), Some("v2".to_string()));
    assert_eq!(parse_update_version_flag(&args, 3).unwrap(), None);
    assert!(ensure_no_extra_args(&args, 3).is_ok());
    assert_eq!(
        ensure_no_extra_args(&args, 0).unwrap_err(),
        "unexpected arguments: a --version v2"
    );
}

#[test]
fn vendor_paths_are_joined_under_the_repo_root() {
    assert_eq!(
        buildkit_vendor_dir("/repo"),
        "/repo/crates/proto/vendor/github.com/moby/buildkit"
    );
    assert_eq!(version_file("/repo/"), "/repo/crates/proto/BUILDKIT_VERSION");
    assert_eq!(
        repo_vendor_dir("r", "tonistiigi/fsutil"),
        "r/crates/proto/vendor/github.com/tonistiigi/fsutil"
    );
    assert_eq!(
        vtproto_ext_path("/r"),
        "/r/crates/proto/vendor/github.com/planetscale/vtprotobuf/vtproto/ext.proto"
    );
    assert_eq!(join_path("", "a"), "a");
}

#[test]
fn vendored_repos_leave_out_buildkit_and_vtprotobuf() {
    assert_eq!(vendored_repo("moby", "buildkit"), None);
    assert_eq!(vendored_repo("planetscale", "vtprotobuf"), None);
    assert_eq!(
        vendored_repo("tonistiigi", "fsutil"),
        Some("tonistiigi/fsutil".to_string())
    );
}

#[test]
fn request_urls_and_headers() {
    assert_eq!(
        BUILDKIT_LATEST_RELEASE_URL,
        "https://api.github.com/repos/moby/buildkit/releases/latest"
    );
    assert_eq!(
        buildkit_file_url("v0.29.0", "api/types/worker.proto"),
        "https://raw.githubusercontent.com/moby/buildkit/v0.29.0/api/types/worker.proto"
    );
    assert_eq!(
        other_repo_file_url("v0.29.0", "tonistiigi/fsutil", "types/stat.proto"),
        "https://raw.githubusercontent.com/moby/buildkit/v0.29.0/vendor/github.com/tonistiigi/fsutil/types/stat.proto"
    );
    assert_eq!(
        modules_url("v0.29.0"),
        "https://raw.githubusercontent.com/moby/buildkit/v0.29.0/vendor/modules.txt"
    );
    assert_eq!(
        vtproto_ext_url("0393e58bdf10"),
        "https://raw.githubusercontent.com/planetscale/vtprotobuf/0393e58bdf10/include/github.com/planetscale/vtprotobuf/vtproto/ext.proto"
    );
    let h = request_headers(None);
    assert_eq!(h.len(), 2);
    assert_eq!(h[0], ("Accept".to_string(), "application/vnd.github+json".to_string()));
    assert_eq!(h[1], ("User-Agent".to_string(), "buildkit-sdk-rs-xtask".to_string()));
    let h = request_headers(Some("tok"));
    assert_eq!(h.len(), 3);
    assert_eq!(h[2], ("Authorization".to_string(), "Bearer tok".to_string()));
}

#[test]
fn module_list_entries() {
    let body = "# github.com/a/b v1.2.3\n## explicit; go 1.21\ngithub.com/a/b/c\n# github.com/x/y v0.1.0 => ./local\n# bad\n# github.com/z/w (devel)\n# github.com/c/d   v2.0.0\r\n# github.com/a/b v1.3.0";
    let entries = parse_module_versions(body);
    let got: Vec<(&str, &str)> = entries.iter().map(|(m, v)| (m.as_str(), v.as_str())).collect();
    assert_eq!(
        got,
        vec![
            ("github.com/a/b", "v1.2.3"),
            ("github.com/x/y", "v0.1.0"),
            ("github.com/c/d", "v2.0.0"),
            ("github.com/a/b", "v1.3.0"),
        ]
    );
    assert_eq!(module_version(&entries, "github.com/a/b"), Some("v1.3.0".to_string()));
    assert_eq!(module_version(&entries, "github.com/q/q"), None);
    assert_eq!(parse_module_versions("").len(), 0);
    assert_eq!(module_entry_of("#github.com/a/b v1"), None);
    assert_eq!(
        module_entry_of("# m v1 x"),
        Some(("m".to_string(), "v1".to_string()))
    );
}

#[test]
fn vtproto_ref_comes_from_the_module_list() {
    let entries = parse_module_versions(
        "# github.com/planetscale/vtprotobuf v0.6.1-0.20240319094008-0393e58bdf10\n",
    );
    assert_eq!(vtproto_git_ref(&entries).unwrap(), "0393e58bdf10");
    let none = parse_module_versions("# github.com/other v1.0.0\n");
    assert_eq!(
        vtproto_git_ref(&none).unwrap_err(),
        "missing github.com/planetscale/vtprotobuf in BuildKit vendor/modules.txt"
    );
}

#[test]
fn words_and_trimming() {
    assert_eq!(split_words("  a\tb  c \u{3000}d "), vec!["a", "b", "c", "d"]);
    assert_eq!(split_words("   ").len(), 0);
    assert_eq!(trim_str("\u{a0} hi there\n"), "hi there");
    assert_eq!(strip_leading_vs("vvv1v"), "1v");
}

#[test]
fn names_sort_like_std_strings() {
    let input = strings(&["b", "a/z", "a", "A", "é", "ab", "b", "z"]);
    let mut expected = input.clone();
    expected.sort();
    assert_eq!(sort_names(input), expected);
    assert!(str_lt("a", "ab") && str_lt("Z", "a") && !str_lt("b", "b") && !str_lt("b", "a"));
    assert!(str_lt("z", "é"));
}

#[test]
fn vendored_repos_are_filtered_and_sorted() {
    let dirs: Vec<(String, String)> = [
        ("tonistiigi", "fsutil"),
        ("moby", "buildkit"),
        ("gogo", "googleapis"),
        ("planetscale", "vtprotobuf"),
        ("containerd", "containerd"),
    ]
    .iter()
    .map(|(a, b)| (a.to_string(), b.to_string()))
    .collect();
    assert_eq!(
        vendored_repos(&dirs),
        vec!["containerd/containerd", "gogo/googleapis", "tonistiigi/fsutil"]
    );
}

#[test]
fn check_results_and_exit_codes() {
    assert!(matches!(check_status(true), CommandStatus::Outdated));
    assert!(matches!(check_status(false), CommandStatus::Success));
    assert_eq!(exit_code(&Ok(CommandStatus::Success)), 0);
    assert_eq!(exit_code(&Ok(CommandStatus::Outdated)), 1);
    assert_eq!(exit_code(&Err("x".to_string())), 2);
    assert_eq!(
        check_report("v0.29.0", "v0.30.0", true),
        "pinned_version=v0.29.0\nlatest_version=v0.30.0\nupdate_available=true\n"
    );
    assert!(USAGE.contains("cargo xtask update-protos [--version vX.Y.Z]"));
}

#[test]
fn usage_is_shown_for_help_and_unknown_commands() {
    assert!(shows_usage(&strings(&[])));
    assert!(shows_usage(&strings(&["-h"])));
    assert!(shows_usage(&strings(&["build"])));
    assert!(!shows_usage(&strings(&["check-protos", "x"])));
    assert!(!shows_usage(&strings(&["update-protos"])));
}

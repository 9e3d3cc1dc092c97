use buildkit_sdk::digest::digest;
use buildkit_sdk::llb::graph::definition_bytes;
use buildkit_sdk::llb::ops::{Diff, FileAction, FileActions, Merge, Mkdir, Rm};
use buildkit_sdk::llb::pb::{ActionBody, CacheSharingMode, ChownOpt, OpPb, UserOpt};
use buildkit_sdk::llb::source::{Git, Http, Image, Local};
use buildkit_sdk::llb::state::{
    copy, diff, git, http, image, local, merge, mkdir, mkfile, rm, scratch, shlex, symlink, FileOp,
    RunOption, State,
};

fn count(hay: &[u8], needle: &[u8]) -> usize {
    hay.windows(needle.len()).filter(|w| *w == needle).count()
}

fn source_of(st: &State) -> (String, Vec<(String, String)>) {
    let o = st.output().unwrap();
    match &o.nodes[o.nodes.len() - 1].body.op {
        OpPb::Source(s) => (s.identifier.clone(), s.attrs.clone()),
        _ => panic!("not a source"),
    }
}

fn pairs(v: &[(&str, &str)]) -> Vec<(String, String)> {
    v.iter().map(|(a, b)| (a.to_string(), b.to_string())).collect()
}

#[test]
fn test_digest() {
    let bytes = b"hello world";
    let digest = digest(bytes);
    assert_eq!(
        digest,
        "sha256:b94d27b9934d3e08a52e52d7da7dabfac484efe37a5380ee9088f7ace2efcde9"
    );
}

#[test]
fn digest_of_empty_input() {
    assert_eq!(
        digest(b""),
        "sha256:e3b0c44298fc1c149afbf4c8996fb92427ae41e4649b934ca495991b7852b855"
    );
    assert_eq!(digest(b"x").len(), 71);
}

#[test]
fn test_node_new() {
    // Building the same operation twice gives the same bytes and digests.
    let a = image("alpine:latest").marshal();
    let b = image("alpine:latest").marshal();
    assert_eq!(a, b);
    assert_eq!(count(&a, b"sha256:"), 3);
    assert_ne!(a, image("alpine:3.19").marshal());
}

#[test]
fn test_context_register_and_iterate() {
    // An operation reached twice is serialized once.
    let base = image("alpine:latest");
    let merged = merge(vec![base.clone(), base.clone()]);
    let def = merged.marshal();
    assert_eq!(count(&def, b"docker-image://alpine:latest"), 1);
    let one = base.marshal();
    assert_eq!(count(&one, b"docker-image://alpine:latest"), 1);
}

#[test]
fn scratch_marshals_to_nothing() {
    assert!(scratch().marshal().is_empty());
    assert!(State::scratch().output().is_none());
}

#[test]
fn sources_name_their_identifiers() {
    assert_eq!(source_of(&image("busybox")).0, "docker-image://busybox");
    assert_eq!(source_of(&local("context")).0, "local://context");
    let (id, attrs) = source_of(&git("https://github.com/moby/buildkit.git", "v0.29.0"));
    assert_eq!(id, "git://https://github.com/moby/buildkit.git#v0.29.0");
    assert_eq!(attrs, pairs(&[("git.fullurl", "https://github.com/moby/buildkit.git")]));
    let (id, attrs) = source_of(&http("https://example.com/a.tar"));
    assert_eq!(id, "https://example.com/a.tar");
    assert!(attrs.is_empty());
}

#[test]
fn git_and_http_attributes() {
    let g = Git::new("r", "main")
        .with_keep_git_dir(true)
        .with_auth_token_secret("tok")
        .with_mount_ssh_sock("default");
    let (_, attrs) = source_of(&State::from_git(g));
    assert_eq!(
        attrs,
        pairs(&[
            ("git.authtokensecret", "tok"),
            ("git.fullurl", "r"),
            ("git.keepgitdir", "true"),
            ("git.mountsshsock", "default"),
        ])
    );
    let h = Http::new("u")
        .with_checksum("sha256:00")
        .with_filename("f")
        .with_perm(0o644)
        .with_uid(1000)
        .with_gid(-1);
    let (_, attrs) = source_of(&State::from_http(h));
    assert_eq!(
        attrs,
        pairs(&[
            ("http.checksum", "sha256:00"),
            ("http.filename", "f"),
            ("http.gid", "-1"),
            ("http.perm", "644"),
            ("http.uid", "1000"),
        ])
    );
    let img = Image::new("alpine").with_custom_name("base");
    assert_eq!(img.custom_name, Some("base".to_string()));
    let loc = Local::new("ctx");
    assert_eq!(loc.name, "ctx");
}

#[test]
fn environment_and_working_directory() {
    let st = image("alpine").add_env("A", "1").add_env("B", "x=y").dir("/work");
    assert_eq!(st.env, vec!["A=1".to_string(), "B=x=y".to_string()]);
    assert_eq!(st.cwd, "/work");
    let e = st.run(shlex("echo 'hello world'"));
    assert_eq!(e.args, vec!["echo".to_string(), "hello world".to_string()]);
    assert_eq!(e.env, vec!["A=1".to_string(), "B=x=y".to_string()]);
    assert_eq!(e.cwd, "/work");
}

#[test]
fn run_options() {
    assert_eq!(RunOption::shell("/bin/sh", "ls -l").args, vec!["/bin/sh", "-c", "ls -l"]);
    assert_eq!(RunOption::args(vec!["a".to_string()]).args, vec!["a"]);
    assert_eq!(RunOption::shlex("a \"b c\" d").args, vec!["a", "b c", "d"]);
}

#[test]
fn exec_states_build_on_their_base() {
    let e = image("alpine").run(shlex("apk add curl")).with_custom_name("install");
    let root = e.root();
    let o = root.output().unwrap();
    assert_eq!(o.nodes.len(), 2);
    assert_eq!(o.nodes[1].inputs.len(), 1);
    assert_eq!(o.nodes[1].inputs[0].node, 0);
    assert_eq!(o.nodes[1].body.custom_name, Some("install".to_string()));
    match &o.nodes[1].body.op {
        OpPb::Exec(x) => assert_eq!(x.args, vec!["apk", "add", "curl"]),
        _ => panic!("not an exec"),
    }
    let def = e.marshal();
    assert_eq!(def, root.marshal());
    assert_eq!(count(&def, b"llb.customname"), 1);
}

#[test]
fn mounts_of_an_exec() {
    let e = image("alpine")
        .run(shlex("make"))
        .add_mount("/src", local("src"))
        .add_mount_scratch("/out")
        .add_mount_cache("/cache", "gocache", CacheSharingMode::Locked);
    assert_eq!(e.extra_mounts.len(), 3);
    let out = e.get_mount("/out");
    let o = out.output().unwrap();
    // the exec node is the last one; the scratch mount's output is index 1
    assert_eq!(o.index, 1);
    let def = e.marshal();
    assert_eq!(count(&def, b"local://src"), 1);
    assert_eq!(count(&def, b"gocache"), 1);
}

#[test]
fn file_operations() {
    let src = image("golang");
    let st = image("alpine")
        .file(FileOp::Copy(copy(&src, "/go/bin/app", "/usr/bin/app").with_create_dest_path(true)))
        .file(FileOp::Mkdir(mkdir("/data", 0o755).with_make_parents(true)))
        .file(FileOp::MkFile(mkfile("/data/a.txt", 0o644, b"hi".to_vec())))
        .file(FileOp::Rm(rm("/tmp/x")))
        .file(FileOp::Symlink(symlink("/usr/bin/app", "/app").with_custom_name("link")));
    let o = st.output().unwrap();
    // alpine, golang, and one file node per operation
    assert_eq!(o.nodes.len(), 7);
    let def = st.marshal();
    assert_eq!(count(&def, b"docker-image://golang"), 1);
    assert_eq!(count(&def, b"/usr/bin/app"), 2);
}

#[test]
fn merge_and_diff() {
    let a = image("alpine");
    let b = a.clone().run(shlex("touch /x")).root();
    let d = diff(&a, &b);
    let o = d.output().unwrap();
    match &o.nodes[o.nodes.len() - 1].body.op {
        OpPb::Diff(_, _) => {}
        _ => panic!("not a diff"),
    }
    let m = merge(vec![scratch(), a.clone(), d]);
    let mo = m.output().unwrap();
    match &mo.nodes[mo.nodes.len() - 1].body.op {
        OpPb::Merge(ins) => assert_eq!(ins.len(), 2),
        _ => panic!("not a merge"),
    }
    assert_eq!(count(&m.marshal(), b"docker-image://alpine"), 1);
}

#[test]
fn clones_marshal_alike() {
    let st = image("alpine").run(shlex("true")).root();
    assert_eq!(st.clone().marshal(), st.marshal());
    let o = st.output().unwrap();
    assert_eq!(definition_bytes(o), st.marshal());
}

#[test]
fn low_level_operations() {
    let base = Image::new("alpine").output();
    let m = Merge::new(vec![Image::new("a").output(), Image::new("b").output()]).with_custom_name("m");
    assert_eq!(m.output().nodes.len(), 3);
    let d = Diff::new(None, Some(base)).output();
    assert_eq!(d.nodes.len(), 2);
    let acts = FileActions::new()
        .with_action(FileAction::Mkdir(
            Mkdir::new("/x", Image::new("alpine").output()).with_owner(ChownOpt::by_name("app", "app")),
        ))
        .output();
    match &acts.nodes[acts.nodes.len() - 1].body.op {
        OpPb::File(a) => match &a[0].action {
            ActionBody::MkDir(mk) => match &mk.owner {
                Some(c) => assert!(matches!(&c.user, Some(UserOpt::ByName(n)) if n == "app")),
                None => panic!("no owner"),
            },
            _ => panic!("not a mkdir"),
        },
        _ => panic!("not a file op"),
    }
    assert!(matches!(ChownOpt::user_id(5).user, Some(UserOpt::ById(5))));
}

fn hex(b: &[u8]) -> String {
    b.iter().map(|x| format!("{x:02x}")).collect()
}

#[test]
fn image_definition_wire_bytes() {
    // def: the source op, then the terminal op naming it; then the metadata
    // entries of both digests.
    assert_eq!(
        hex(&image("alpine").marshal()),
        "0a191a170a15646f636b65722d696d6167653a2f2f616c70696e650a4b0a490a477368613235363a3335633464303031326333366431623934383535396231613030656431386637393334326235323634333231316635383238313865303037643830663665336512490a477368613235363a3335633464303031326333366431623934383535396231613030656431386637393334326235323634333231316635383238313865303037643830663665336512490a477368613235363a64383031373031323539633734303639326639666332636638643764373533383132613963373861316166393037623563353262376563633438633539373237"
    );
}

#[test]
fn builders_set_their_fields() {
    let c = buildkit_sdk::llb::ops::Copy::new("/a", Image::new("x").output(), "/b", Image::new("y").output())
        .with_follow_symlink(true)
        .with_dir_copy_contents(true)
        .with_allow_empty_wildcard(true)
        .with_include_patterns(vec!["*.rs".to_string()])
        .with_exclude_patterns(vec!["target".to_string()])
        .with_always_replace_existing_dest_paths(true)
        .with_mode(0o600)
        .with_timestamp(7);
    assert!(c.action.follow_symlink && c.action.dir_copy_contents && c.action.allow_empty_wildcard);
    assert!(c.action.always_replace_existing_dest_paths);
    assert_eq!(c.action.include_patterns, vec!["*.rs"]);
    assert_eq!(c.action.exclude_patterns, vec!["target"]);
    assert_eq!((c.action.mode, c.action.timestamp), (0o600, 7));
    assert!(!c.action.create_dest_path && !c.action.allow_wildcard);
    let r = Rm::new("/tmp", Image::new("x").output()).with_allow_not_found(true).with_allow_wildcard(true);
    assert!(r.action.allow_not_found && r.action.allow_wildcard);
    let g = Git::new("r", "main")
        .with_subdir("sub")
        .with_auth_header_secret("h")
        .with_known_ssh_hosts("k");
    assert_eq!(g.subdir, Some("sub".to_string()));
    let (id, attrs) = source_of(&State::from_git(g));
    assert_eq!(id, "git://r#main:sub");
    assert_eq!(
        attrs,
        pairs(&[("git.authheadersecret", "h"), ("git.fullurl", "r"), ("git.knownsshhosts", "k")])
    );
}

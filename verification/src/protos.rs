//! Maintenance of the vendored BuildKit protocol files: command lines,
//! version tags, vendor paths and Go module versions.
use crate::text::{
    char_is_ws, concat, decimal, is_ws, owned, push_char, push_str, str_eq, substring, trim, trim_str,
    u64_to_decimal,
};
use vstd::prelude::*;

verus! {

// ------------------------------------------------------------------
// Text
// ------------------------------------------------------------------

/// The text without its leading `v`s (`trim_start_matches('v')`).
pub open spec fn strip_vs(s: Seq<char>) -> Seq<char>
    decreases s.len(),
{
    if s.len() > 0 && s[0] == 'v' {
        strip_vs(s.drop_first())
    } else {
        s
    }
}

proof fn lemma_strip_vs_skip(s: Seq<char>, i: int)
    requires
        0 <= i <= s.len(),
        forall|j: int| 0 <= j < i ==> #[trigger] s[j] == 'v',
    ensures
        strip_vs(s) == strip_vs(s.subrange(i, s.len() as int)),
    decreases i,
{
    if i > 0 {
        assert(s.drop_first().subrange(i - 1, s.drop_first().len() as int) =~= s.subrange(i, s.len() as int));
        assert forall|j: int| 0 <= j < i - 1 implies #[trigger] s.drop_first()[j] == 'v' by {
            assert(s.drop_first()[j] == s[j + 1]);
        }
        lemma_strip_vs_skip(s.drop_first(), i - 1);
    } else {
        assert(s.subrange(0, s.len() as int) =~= s);
    }
}

/// The text without its leading `v`s.
pub fn strip_leading_vs(s: &str) -> (r: String)
    ensures
        r@ == strip_vs(s@),
{
    let n = s.unicode_len();
    let mut i: usize = 0;
    while i < n && s.get_char(i) == 'v'
        invariant
            n == s@.len(),
            i <= n,
            forall|j: int| 0 <= j < i ==> #[trigger] s@[j] == 'v',
        decreases n - i,
    {
        i = i + 1;
    }
    proof {
        lemma_strip_vs_skip(s@, i as int);
        let t = s@.subrange(i as int, n as int);
        assert(t.len() == 0 || t[0] != 'v');
    }
    substring(s, i, n)
}

/// Joins strings with a separator.
pub open spec fn join(parts: Seq<Seq<char>>, sep: Seq<char>) -> Seq<char>
    decreases parts.len(),
{
    if parts.len() == 0 {
        Seq::empty()
    } else if parts.len() == 1 {
        parts[0]
    } else {
        join(parts.drop_last(), sep) + sep + parts.last()
    }
}

pub fn join_strings(parts: &Vec<String>, from: usize, sep: &str) -> (r: String)
    requires
        from <= parts@.len(),
    ensures
        r@ == join(parts@.subrange(from as int, parts@.len() as int).map_values(|s: String| s@), sep@),
{
    let ghost all = parts@.map_values(|s: String| s@);
    let mut r = String::new();
    let n = parts.len();
    let mut i = from;
    while i < n
        invariant
            n == parts@.len(),
            from <= i <= n,
            all == parts@.map_values(|s: String| s@),
            r@ == join(all.subrange(from as int, i as int), sep@),
        decreases n - i,
    {
        let ghost prev = all.subrange(from as int, i as int);
        if i > from {
            push_str(&mut r, sep);
        }
        push_str(&mut r, parts[i].as_str());
        i = i + 1;
        let ghost next = all.subrange(from as int, i as int);
        proof {
            assert(next.drop_last() =~= prev);
            if prev.len() == 0 {
                assert(r@ =~= join(next, sep@));
            }
        }
    }
    assert(all.subrange(from as int, n as int) =~= parts@.subrange(from as int, n as int).map_values(|s: String| s@));
    r
}

// ------------------------------------------------------------------
// Command line
// ------------------------------------------------------------------

/// The message that refuses leftover arguments.
pub open spec fn extra_args_message(extras: Seq<String>) -> Seq<char> {
    "unexpected arguments: "@ + join(extras.map_values(|s: String| s@), " "@)
}

/// No arguments are left after `from`; otherwise the message that lists
/// them, separated by spaces.
pub fn ensure_no_extra_args(args: &Vec<String>, from: usize) -> (r: Result<(), String>)
    requires
        from <= args@.len(),
    ensures
        from == args@.len() ==> r is Ok,
        from < args@.len() ==> (r matches Err(m) && m@ == extra_args_message(
            args@.subrange(from as int, args@.len() as int),
        )),
{
    if from == args.len() {
        return Ok(());
    }
    let mut m = owned("unexpected arguments: ");
    let j = join_strings(args, from, " ");
    push_str(&mut m, j.as_str());
    Err(m)
}

/// What the arguments of `update-protos` after the subcommand ask for:
/// nothing, or `--version <tag>` and nothing more; else the message that
/// refuses them.
pub open spec fn version_flag(args: Seq<String>) -> Result<Option<Seq<char>>, Seq<char>> {
    if args.len() == 0 {
        Ok(None)
    } else if args[0]@ != "--version"@ {
        Err("expected `--version <tag>`, got `"@ + args[0]@ + "`"@)
    } else if args.len() == 1 {
        Err("missing value for `--version`"@)
    } else if args.len() > 2 {
        Err(extra_args_message(args.subrange(2, args.len() as int)))
    } else {
        Ok(Some(args[1]@))
    }
}

/// The arguments of `update-protos` from `from` on: nothing, or
/// `--version <tag>` and nothing more.
pub fn parse_update_version_flag(args: &Vec<String>, from: usize) -> (r: Result<Option<String>, String>)
    requires
        from <= args@.len(),
    ensures
        match version_flag(args@.subrange(from as int, args@.len() as int)) {
            Ok(None) => r matches Ok(None),
            Ok(Some(v)) => r matches Ok(Some(s)) && s@ == v,
            Err(m) => r matches Err(e) && e@ == m,
        },
{
    let ghost rest = args@.subrange(from as int, args@.len() as int);
    if from == args.len() {
        return Ok(None);
    }
    assert(rest[0] == args@[from as int]);
    if !str_eq(args[from].as_str(), "--version") {
        let mut m = owned("expected `--version <tag>`, got `");
        push_str(&mut m, args[from].as_str());
        push_str(&mut m, "`");
        return Err(m);
    }
    if from + 1 == args.len() {
        return Err(owned("missing value for `--version`"));
    }
    assert(rest[1] == args@[from + 1]);
    assert(rest.subrange(2, rest.len() as int) =~= args@.subrange(from + 2, args@.len() as int));
    match ensure_no_extra_args(args, from + 2) {
        Ok(()) => Ok(Some(args[from + 1].clone())),
        Err(m) => Err(m),
    }
}

/// A maintenance command.
pub enum Command {
    CheckProtos,
    UpdateProtos(Option<String>),
    Help,
}

/// The command a command line asks for (the program name excluded), or the
/// message that refuses it.
pub fn parse_command(args: &Vec<String>) -> (r: Result<Command, String>)
    ensures
        args@.len() == 0 ==> (r matches Err(m) && m@ == "missing subcommand"@),
        args@.len() > 0 && args@[0]@ == "check-protos"@ ==> (if args@.len() == 1 {
            r matches Ok(Command::CheckProtos)
        } else {
            r matches Err(m) && m@ == extra_args_message(args@.subrange(1, args@.len() as int))
        }),
        args@.len() > 0 && (args@[0]@ == "help"@ || args@[0]@ == "--help"@ || args@[0]@ == "-h"@)
            ==> r matches Ok(Command::Help),
        args@.len() > 0 && args@[0]@ != "check-protos"@ && args@[0]@ != "update-protos"@ && args@[0]@
            != "help"@ && args@[0]@ != "--help"@ && args@[0]@ != "-h"@ ==> (r matches Err(m) && m@
            == "unknown subcommand `"@ + args@[0]@ + "`"@),
        args@.len() > 0 && args@[0]@ == "update-protos"@ ==> match version_flag(
            args@.subrange(1, args@.len() as int),
        ) {
            Ok(None) => r matches Ok(Command::UpdateProtos(None)),
            Ok(Some(v)) => r matches Ok(Command::UpdateProtos(Some(s))) && s@ == v,
            Err(m) => r matches Err(e) && e@ == m,
        },
{
    if args.len() == 0 {
        return Err(owned("missing subcommand"));
    }
    proof {
        reveal_strlit("check-protos");
        reveal_strlit("update-protos");
        reveal_strlit("help");
        reveal_strlit("--help");
        reveal_strlit("-h");
        assert("help"@ != "check-protos"@ && "help"@ != "update-protos"@) by {
            assert("help"@.len() != "check-protos"@.len());
            assert("help"@.len() != "update-protos"@.len());
        }
        assert("--help"@ != "check-protos"@ && "--help"@ != "update-protos"@) by {
            assert("--help"@.len() != "check-protos"@.len());
            assert("--help"@.len() != "update-protos"@.len());
        }
        assert("-h"@ != "check-protos"@ && "-h"@ != "update-protos"@) by {
            assert("-h"@.len() != "check-protos"@.len());
            assert("-h"@.len() != "update-protos"@.len());
        }
    }
    let c = args[0].as_str();
    if str_eq(c, "check-protos") {
        match ensure_no_extra_args(args, 1) {
            Ok(()) => Ok(Command::CheckProtos),
            Err(m) => Err(m),
        }
    } else if str_eq(c, "update-protos") {
        match parse_update_version_flag(args, 1) {
            Ok(v) => Ok(Command::UpdateProtos(v)),
            Err(m) => Err(m),
        }
    } else if str_eq(c, "help") || str_eq(c, "--help") || str_eq(c, "-h") {
        Ok(Command::Help)
    } else {
        let mut m = owned("unknown subcommand `");
        push_str(&mut m, c);
        push_str(&mut m, "`");
        Err(m)
    }
}

/// Whether a command line prints the usage text: with no subcommand, an
/// unknown one, or a request for help.
pub fn shows_usage(args: &Vec<String>) -> (r: bool)
    ensures
        r == (args@.len() == 0 || (args@[0]@ != "check-protos"@ && args@[0]@ != "update-protos"@)),
{
    if args.len() == 0 {
        return true;
    }
    !str_eq(args[0].as_str(), "check-protos") && !str_eq(args[0].as_str(), "update-protos")
}

// ------------------------------------------------------------------
// Version tags
// ------------------------------------------------------------------

#[verifier::external_type_specification]
#[verifier::external_body]
pub struct ExSemverVersion(semver::Version);

/// A semantic version: numbers, pre-release and build metadata. Only a
/// successful parse makes one, and nothing changes it afterwards, so the
/// fields always describe `parsed`.
pub struct SemVer {
    major: u64,
    minor: u64,
    patch: u64,
    pre: String,
    build: String,
    parsed: semver::Version,
}

impl View for SemVer {
    type V = (u64, u64, u64, Seq<char>, Seq<char>);

    closed spec fn view(&self) -> (u64, u64, u64, Seq<char>, Seq<char>) {
        (self.major, self.minor, self.patch, self.pre@, self.build@)
    }
}

/// What `semver::Version::parse` makes of a text: the numbers,
/// pre-release and build metadata of a version, or the text of the error
/// that refuses it.
pub uninterp spec fn semver_parse(text: Seq<char>) -> Result<(u64, u64, u64, Seq<char>, Seq<char>), Seq<char>>;

/// Parses a version with `semver::Version::parse`. Claimed: the result is a
/// function of the text; a success holds the parsed fields, a failure the
/// error's message as `semver::Error` displays it.
#[verifier::external_body]
fn parse_semver(text: &str) -> (r: Result<SemVer, String>)
    ensures
        match r {
            Ok(v) => semver_parse(text@) == Ok::<_, Seq<char>>(v@),
            Err(e) => semver_parse(text@) == Err::<(u64, u64, u64, Seq<char>, Seq<char>), _>(e@),
        },
{
    match semver::Version::parse(text) {
        Ok(v) => Ok(
            SemVer {
                major: v.major,
                minor: v.minor,
                patch: v.patch,
                pre: v.pre.as_str().to_owned(),
                build: v.build.as_str().to_owned(),
                parsed: v,
            },
        ),
        Err(e) => Err(e.to_string()),
    }
}

/// Whether a version is greater than another in semver's order.
pub uninterp spec fn semver_greater(
    a: (u64, u64, u64, Seq<char>, Seq<char>),
    b: (u64, u64, u64, Seq<char>, Seq<char>),
) -> bool;

/// `>` on two `semver::Version`s. Claimed, from the derived `Ord` of
/// `Version` and the `Ord` of `Prerelease`: the numbers decide first, in
/// order; with equal numbers a release is greater than a pre-release; a
/// version is not greater than itself. How two pre-releases, or two build
/// metadata, compare is left to the name.
#[verifier::external_body]
fn version_gt(a: &SemVer, b: &SemVer) -> (r: bool)
    ensures
        r == semver_greater(a@, b@),
        a.major != b.major ==> r == (a.major > b.major),
        a.major == b.major && a.minor != b.minor ==> r == (a.minor > b.minor),
        a.major == b.major && a.minor == b.minor && a.patch != b.patch ==> r == (a.patch > b.patch),
        a.major == b.major && a.minor == b.minor && a.patch == b.patch && a.pre@.len() == 0
            && b.pre@.len() > 0 ==> r,
        a.major == b.major && a.minor == b.minor && a.patch == b.patch && a.pre@.len() > 0
            && b.pre@.len() == 0 ==> !r,
        a@ == b@ ==> !r,
{
    a.parsed > b.parsed
}

/// A version written out: `major.minor.patch`, then `-pre` and `+build`
/// when present.
pub open spec fn version_text(p: (u64, u64, u64, Seq<char>, Seq<char>)) -> Seq<char> {
    decimal(p.0 as nat) + "."@ + decimal(p.1 as nat) + "."@ + decimal(p.2 as nat) + (if p.3.len() > 0 {
        "-"@ + p.3
    } else {
        Seq::empty()
    }) + (if p.4.len() > 0 {
        "+"@ + p.4
    } else {
        Seq::empty()
    })
}

impl SemVer {
    pub fn major(&self) -> (r: u64)
        ensures
            r == self@.0,
    {
        self.major
    }

    pub fn minor(&self) -> (r: u64)
        ensures
            r == self@.1,
    {
        self.minor
    }

    pub fn patch(&self) -> (r: u64)
        ensures
            r == self@.2,
    {
        self.patch
    }

    /// The pre-release identifiers, empty for a release.
    pub fn pre(&self) -> (r: &str)
        ensures
            r@ == self@.3,
    {
        self.pre.as_str()
    }

    /// The build metadata, empty when there is none.
    pub fn build(&self) -> (r: &str)
        ensures
            r@ == self@.4,
    {
        self.build.as_str()
    }

    /// The version written out.
    pub fn text(&self) -> (r: String)
        ensures
            r@ == version_text(self@),
    {
        let mut r = u64_to_decimal(self.major);
        push_str(&mut r, ".");
        push_str(&mut r, u64_to_decimal(self.minor).as_str());
        push_str(&mut r, ".");
        push_str(&mut r, u64_to_decimal(self.patch).as_str());
        if self.pre.as_str().unicode_len() > 0 {
            push_str(&mut r, "-");
            push_str(&mut r, self.pre.as_str());
        }
        if self.build.as_str().unicode_len() > 0 {
            push_str(&mut r, "+");
            push_str(&mut r, self.build.as_str());
        }
        r
    }

    /// Whether this version is greater than another in semver's order.
    pub fn newer_than(&self, other: &SemVer) -> (r: bool)
        ensures
            r == semver_greater(self@, other@),
    {
        version_gt(self, other)
    }
}

/// The message that refuses a version tag.
pub open spec fn invalid_tag_message(tag: Seq<char>) -> Seq<char> {
    "invalid BuildKit version tag `"@ + tag + "`"@
}

/// The error that refuses a version tag: the message, then the parser's
/// reason, as an error with context prints them.
pub open spec fn invalid_tag_error(tag: Seq<char>, reason: Seq<char>) -> Seq<char> {
    invalid_tag_message(tag) + ": "@ + reason
}

/// The canonical form of a version tag: whitespace and leading `v`s
/// dropped, parsed as a semantic version, written out after a `v`; or the
/// error that refuses the tag.
pub open spec fn normalized(tag: Seq<char>) -> Result<Seq<char>, Seq<char>> {
    match semver_parse(strip_vs(trim(tag))) {
        Ok(p) => Ok("v"@ + version_text(p)),
        Err(e) => Err(invalid_tag_error(tag, e)),
    }
}

/// Writes the error that refuses a version tag.
fn tag_error(tag: &str, reason: &str) -> (r: String)
    ensures
        r@ == invalid_tag_error(tag@, reason@),
{
    let mut m = owned("invalid BuildKit version tag `");
    push_str(&mut m, tag);
    push_str(&mut m, "`");
    push_str(&mut m, ": ");
    push_str(&mut m, reason);
    m
}

/// A version tag in canonical form, or the error that refuses it.
pub fn normalize_version(version: &str) -> (r: Result<String, String>)
    ensures
        match normalized(version@) {
            Ok(n) => r matches Ok(s) && s@ == n,
            Err(m) => r matches Err(e) && e@ == m,
        },
{
    let t = trim_str(version);
    let s = strip_leading_vs(t.as_str());
    match parse_semver(s.as_str()) {
        Ok(v) => {
            let mut r = owned("v");
            push_str(&mut r, v.text().as_str());
            Ok(r)
        },
        Err(e) => Err(tag_error(version, e.as_str())),
    }
}

/// The version a tag names: its canonical form without the `v`, parsed;
/// or the error that refuses the tag.
pub open spec fn tag_version(tag: Seq<char>) -> Result<(u64, u64, u64, Seq<char>, Seq<char>), Seq<char>> {
    match normalized(tag) {
        Ok(n) => match semver_parse(n.drop_first()) {
            Ok(p) => Ok(p),
            Err(e) => Err(invalid_tag_error(tag, e)),
        },
        Err(m) => Err(m),
    }
}

/// The version of a tag: the canonical tag without its `v`, parsed.
pub fn parse_semver_tag(version: &str) -> (r: Result<SemVer, String>)
    ensures
        match tag_version(version@) {
            Ok(p) => r matches Ok(v) && v@ == p,
            Err(m) => r matches Err(e) && e@ == m,
        },
{
    let n = match normalize_version(version) {
        Ok(n) => n,
        Err(m) => return Err(m),
    };
    proof {
        reveal_strlit("v");
    }
    let raw = substring(n.as_str(), 1, n.as_str().unicode_len());
    assert(raw@ =~= n@.drop_first());
    match parse_semver(raw.as_str()) {
        Ok(v) => Ok(v),
        Err(e) => Err(tag_error(version, e.as_str())),
    }
}

/// Whether the latest release is newer than the pinned version; the tag
/// that fails to parse, the latest first, is refused.
pub fn update_available(latest: &str, pinned: &str) -> (r: Result<bool, String>)
    ensures
        match (tag_version(latest@), tag_version(pinned@)) {
            (Err(m), _) => r matches Err(e) && e@ == m,
            (Ok(_), Err(m)) => r matches Err(e) && e@ == m,
            (Ok(a), Ok(b)) => r == Ok::<bool, String>(semver_greater(a, b)),
        },
{
    let a = match parse_semver_tag(latest) {
        Ok(a) => a,
        Err(m) => return Err(m),
    };
    let b = match parse_semver_tag(pinned) {
        Ok(b) => b,
        Err(m) => return Err(m),
    };
    Ok(a.newer_than(&b))
}

/// The pinned version as the version file holds it: the file's text
/// without surrounding whitespace, in canonical form.
pub fn pinned_version(file_text: &str) -> (r: Result<String, String>)
    ensures
        match normalized(trim(file_text@)) {
            Ok(n) => r matches Ok(s) && s@ == n,
            Err(m) => r matches Err(e) && e@ == m,
        },
{
    let t = trim_str(file_text);
    normalize_version(t.as_str())
}

/// What the version file holds for a version: the version and a newline.
pub fn pinned_file_text(version: &str) -> (r: String)
    ensures
        r@ == version@ + "\n"@,
{
    concat(version, "\n")
}

/// The version to vendor: the requested one in canonical form, else the
/// pinned one.
pub fn target_version(current: &str, requested: Option<&str>) -> (r: Result<String, String>)
    ensures
        match requested {
            None => r matches Ok(s) && s@ == current@,
            Some(v) => match normalized(v@) {
                Ok(n) => r matches Ok(s) && s@ == n,
                Err(m) => r matches Err(e) && e@ == m,
            },
        },
{
    match requested {
        Some(v) => normalize_version(v),
        None => Ok(owned(current)),
    }
}

/// The closing report of an update.
pub fn update_summary(current: &str, target: &str) -> (r: String)
    ensures
        current@ == target@ ==> r@ == "Pinned BuildKit version remains "@ + target@,
        current@ != target@ ==> r@ == "Updated pinned BuildKit version "@ + current@ + " -> "@ + target@,
{
    if str_eq(current, target) {
        concat("Pinned BuildKit version remains ", target)
    } else {
        let mut r = concat("Updated pinned BuildKit version ", current);
        push_str(&mut r, " -> ");
        push_str(&mut r, target);
        r
    }
}

/// How a maintenance command ended: done, or a newer BuildKit release
/// than the pinned one exists.
pub enum CommandStatus {
    Success,
    Outdated,
}

/// The exit code of a command: 0 when done, 1 when outdated, 2 on error.
pub fn exit_code(outcome: &Result<CommandStatus, String>) -> (r: u8)
    ensures
        r == match outcome {
            Ok(CommandStatus::Success) => 0u8,
            Ok(CommandStatus::Outdated) => 1u8,
            Err(_) => 2u8,
        },
{
    match outcome {
        Ok(CommandStatus::Success) => 0,
        Ok(CommandStatus::Outdated) => 1,
        Err(_) => 2,
    }
}

/// The outcome of a check: outdated when an update is available.
pub fn check_status(update_available: bool) -> (r: CommandStatus)
    ensures
        update_available <==> r is Outdated,
{
    if update_available {
        CommandStatus::Outdated
    } else {
        CommandStatus::Success
    }
}

/// The machine-readable result of a check, one `key=value` line each.
pub fn check_report(pinned: &str, latest: &str, update_available: bool) -> (r: String)
    ensures
        r@ == "pinned_version="@ + pinned@ + "\nlatest_version="@ + latest@ + "\nupdate_available="@
            + (if update_available { "true"@ } else { "false"@ }) + "\n"@,
{
    let mut r = concat("pinned_version=", pinned);
    push_str(&mut r, "\nlatest_version=");
    push_str(&mut r, latest);
    push_str(&mut r, "\nupdate_available=");
    if update_available {
        push_str(&mut r, "true");
    } else {
        push_str(&mut r, "false");
    }
    push_str(&mut r, "\n");
    r
}

/// How to call the maintenance commands.
pub const USAGE: &'static str = "Usage:\n  cargo xtask check-protos\n  cargo xtask update-protos [--version vX.Y.Z]";

// ------------------------------------------------------------------
// GitHub requests
// ------------------------------------------------------------------

/// The API address of BuildKit's latest release.
pub const BUILDKIT_LATEST_RELEASE_URL: &'static str = "https://api.github.com/repos/moby/buildkit/releases/latest";

/// Where BuildKit's files are served from, by tag.
pub const BUILDKIT_RAW_BASE_URL: &'static str = "https://raw.githubusercontent.com/moby/buildkit";

/// The Go module of vtprotobuf.
pub const PLANETSCALE_VTPROTO_MODULE: &'static str = "github.com/planetscale/vtprotobuf";

/// The user agent of every request.
pub const USER_AGENT: &'static str = "buildkit-sdk-rs-xtask";

/// The headers of a GitHub request: the accepted media type, the user
/// agent, and a bearer token when there is one.
pub fn request_headers(token: Option<&str>) -> (r: Vec<(String, String)>)
    ensures
        r@.len() == if token is Some { 3int } else { 2int },
        r@[0].0@ == "Accept"@ && r@[0].1@ == "application/vnd.github+json"@,
        r@[1].0@ == "User-Agent"@ && r@[1].1@ == USER_AGENT@,
        token matches Some(t) ==> r@[2].0@ == "Authorization"@ && r@[2].1@ == "Bearer "@ + t@,
{
    let mut r: Vec<(String, String)> = Vec::new();
    r.push((owned("Accept"), owned("application/vnd.github+json")));
    r.push((owned("User-Agent"), owned(USER_AGENT)));
    match token {
        Some(t) => {
            r.push((owned("Authorization"), concat("Bearer ", t)));
        },
        None => {},
    }
    r
}

/// The address of a file of BuildKit's own tree at a version.
pub fn buildkit_file_url(version: &str, relative_path: &str) -> (r: String)
    ensures
        r@ == BUILDKIT_RAW_BASE_URL@ + "/"@ + version@ + "/"@ + join(path_parts(relative_path@), "/"@),
{
    let mut r = concat(BUILDKIT_RAW_BASE_URL, "/");
    push_str(&mut r, version);
    push_str(&mut r, "/");
    push_str(&mut r, path_to_url_path(relative_path).as_str());
    r
}

/// The address of a file of a repository that BuildKit vendors, at a
/// BuildKit version.
pub fn other_repo_file_url(version: &str, repo: &str, relative_path: &str) -> (r: String)
    ensures
        r@ == BUILDKIT_RAW_BASE_URL@ + "/"@ + version@ + "/vendor/github.com/"@ + repo@ + "/"@ + join(
            path_parts(relative_path@),
            "/"@,
        ),
{
    let mut r = concat(BUILDKIT_RAW_BASE_URL, "/");
    push_str(&mut r, version);
    push_str(&mut r, "/vendor/github.com/");
    push_str(&mut r, repo);
    push_str(&mut r, "/");
    push_str(&mut r, path_to_url_path(relative_path).as_str());
    r
}

/// The address of BuildKit's `vendor/modules.txt` at a version.
pub fn modules_url(version: &str) -> (r: String)
    ensures
        r@ == BUILDKIT_RAW_BASE_URL@ + "/"@ + version@ + "/vendor/modules.txt"@,
{
    let mut r = concat(BUILDKIT_RAW_BASE_URL, "/");
    push_str(&mut r, version);
    push_str(&mut r, "/vendor/modules.txt");
    r
}

/// The address of vtprotobuf's `ext.proto` at a Git ref.
pub fn vtproto_ext_url(git_ref: &str) -> (r: String)
    ensures
        r@ == "https://raw.githubusercontent.com/planetscale/vtprotobuf/"@ + git_ref@
            + "/include/github.com/planetscale/vtprotobuf/vtproto/ext.proto"@,
{
    let mut r = concat("https://raw.githubusercontent.com/planetscale/vtprotobuf/", git_ref);
    push_str(&mut r, "/include/github.com/planetscale/vtprotobuf/vtproto/ext.proto");
    r
}

// ------------------------------------------------------------------
// Paths
// ------------------------------------------------------------------

/// A relative component appended to a path, as `PathBuf::push` does: with
/// a `/` between them unless the path is empty or already ends with one.
pub open spec fn joined(base: Seq<char>, comp: Seq<char>) -> Seq<char> {
    if base.len() == 0 {
        comp
    } else if base.last() == '/' {
        base + comp
    } else {
        base + seq!['/'] + comp
    }
}

/// Appends a relative component to a path.
pub fn join_path(base: &str, comp: &str) -> (r: String)
    ensures
        r@ == joined(base@, comp@),
{
    let n = base.unicode_len();
    if n == 0 {
        owned(comp)
    } else if base.get_char(n - 1) == '/' {
        concat(base, comp)
    } else {
        let mut r = owned(base);
        push_char(&mut r, '/');
        push_str(&mut r, comp);
        r
    }
}

/// `<root>/crates/proto`.
pub fn proto_dir(repo_root: &str) -> (r: String)
    ensures
        r@ == joined(joined(repo_root@, "crates"@), "proto"@),
{
    let c = join_path(repo_root, "crates");
    join_path(c.as_str(), "proto")
}

/// `<root>/crates/proto/BUILDKIT_VERSION`.
pub fn version_file(repo_root: &str) -> (r: String)
    ensures
        r@ == joined(joined(joined(repo_root@, "crates"@), "proto"@), "BUILDKIT_VERSION"@),
{
    join_path(proto_dir(repo_root).as_str(), "BUILDKIT_VERSION")
}

/// `<root>/crates/proto/vendor`.
pub fn vendor_dir(repo_root: &str) -> (r: String)
    ensures
        r@ == joined(joined(joined(repo_root@, "crates"@), "proto"@), "vendor"@),
{
    join_path(proto_dir(repo_root).as_str(), "vendor")
}

/// `<root>/crates/proto/vendor/github.com`.
pub fn github_vendor_dir(repo_root: &str) -> (r: String)
    ensures
        r@ == joined(joined(joined(joined(repo_root@, "crates"@), "proto"@), "vendor"@), "github.com"@),
{
    join_path(vendor_dir(repo_root).as_str(), "github.com")
}

/// `<root>/crates/proto/vendor/github.com/moby/buildkit`.
pub fn buildkit_vendor_dir(repo_root: &str) -> (r: String)
    ensures
        r@ == joined(
            joined(
                joined(joined(joined(joined(repo_root@, "crates"@), "proto"@), "vendor"@), "github.com"@),
                "moby"@,
            ),
            "buildkit"@,
        ),
{
    let g = github_vendor_dir(repo_root);
    let m = join_path(g.as_str(), "moby");
    join_path(m.as_str(), "buildkit")
}

/// `<root>/crates/proto/vendor/github.com/<org>/<repo>`.
pub fn repo_vendor_dir(repo_root: &str, repo: &str) -> (r: String)
    ensures
        r@ == joined(joined(joined(joined(joined(repo_root@, "crates"@), "proto"@), "vendor"@), "github.com"@), repo@),
{
    join_path(github_vendor_dir(repo_root).as_str(), repo)
}

/// `<root>/crates/proto/vendor/github.com/planetscale/vtprotobuf/vtproto/ext.proto`.
pub fn vtproto_ext_path(repo_root: &str) -> (r: String)
    ensures
        r@ == joined(joined(joined(joined(
            joined(joined(joined(joined(repo_root@, "crates"@), "proto"@), "vendor"@), "github.com"@),
            "planetscale"@), "vtprotobuf"@), "vtproto"@), "ext.proto"@),
{
    let g = github_vendor_dir(repo_root);
    let a = join_path(g.as_str(), "planetscale");
    let b = join_path(a.as_str(), "vtprotobuf");
    let c = join_path(b.as_str(), "vtproto");
    join_path(c.as_str(), "ext.proto")
}

/// The components of a path as `std::path::Path::iter` yields them, each
/// read as text.
pub uninterp spec fn path_parts(p: Seq<char>) -> Seq<Seq<char>>;

/// The components of a path (std's `Path::iter`, each converted with
/// `to_string_lossy`). Claimed: the result is a function of the path.
#[verifier::external_body]
fn components(p: &str) -> (r: Vec<String>)
    ensures
        r@.map_values(|s: String| s@) == path_parts(p@),
{
    std::path::Path::new(p).iter().map(|part| part.to_string_lossy().into_owned()).collect()
}

/// A relative path as a URL path: its components joined with `/`.
pub fn path_to_url_path(path: &str) -> (r: String)
    ensures
        r@ == join(path_parts(path@), "/"@),
{
    let parts = components(path);
    let r = join_strings(&parts, 0, "/");
    assert(parts@.subrange(0, parts@.len() as int) =~= parts@);
    r
}

/// A repository vendored under `github.com/<org>/<repo>` that is updated
/// from BuildKit's own vendor tree: all but BuildKit itself and vtprotobuf.
pub fn vendored_repo(org: &str, repo: &str) -> (r: Option<String>)
    ensures
        ({
            let name = org@ + "/"@ + repo@;
            if name == "moby/buildkit"@ || name == "planetscale/vtprotobuf"@ {
                r is None
            } else {
                r matches Some(s) && s@ == name
            }
        }),
{
    let mut name = owned(org);
    push_str(&mut name, "/");
    push_str(&mut name, repo);
    if str_eq(name.as_str(), "moby/buildkit") || str_eq(name.as_str(), "planetscale/vtprotobuf") {
        None
    } else {
        Some(name)
    }
}

// ------------------------------------------------------------------
// Ordering of repository names
// ------------------------------------------------------------------

/// Whether text `a` sorts before text `b`: at the first character where
/// they differ, the smaller code point first; a proper prefix first. This
/// is the order of `str` (byte-wise on UTF-8, which orders code points the
/// same way).
pub open spec fn text_lt(a: Seq<char>, b: Seq<char>) -> bool
    decreases a.len(),
{
    if a.len() == 0 {
        b.len() > 0
    } else if b.len() == 0 {
        false
    } else if a[0] == b[0] {
        text_lt(a.drop_first(), b.drop_first())
    } else {
        (a[0] as u32) < (b[0] as u32)
    }
}

/// Texts in order, each one not after the next.
pub open spec fn sorted_texts(s: Seq<Seq<char>>) -> bool {
    forall|i: int, j: int| 0 <= i < j < s.len() ==> !text_lt(#[trigger] s[j], #[trigger] s[i])
}

proof fn lemma_text_lt_asymmetric(a: Seq<char>, b: Seq<char>)
    requires
        text_lt(a, b),
    ensures
        !text_lt(b, a),
    decreases a.len(),
{
    if a.len() > 0 && b.len() > 0 && a[0] == b[0] {
        lemma_text_lt_asymmetric(a.drop_first(), b.drop_first());
    }
}

proof fn lemma_text_lt_transitive(a: Seq<char>, b: Seq<char>, c: Seq<char>)
    requires
        text_lt(a, b),
        text_lt(b, c),
    ensures
        text_lt(a, c),
    decreases a.len(),
{
    if a.len() > 0 && b.len() > 0 && c.len() > 0 && a[0] == b[0] && b[0] == c[0] {
        lemma_text_lt_transitive(a.drop_first(), b.drop_first(), c.drop_first());
    }
}

proof fn lemma_text_lt_skip(a: Seq<char>, b: Seq<char>, i: int)
    requires
        0 <= i <= a.len(),
        i <= b.len(),
        forall|j: int| 0 <= j < i ==> a[j] == b[j],
    ensures
        text_lt(a, b) == text_lt(a.subrange(i, a.len() as int), b.subrange(i, b.len() as int)),
    decreases i,
{
    if i > 0 {
        lemma_text_lt_skip(a.drop_first(), b.drop_first(), i - 1);
        assert(a.drop_first().subrange(i - 1, a.drop_first().len() as int) =~= a.subrange(i, a.len() as int));
        assert(b.drop_first().subrange(i - 1, b.drop_first().len() as int) =~= b.subrange(i, b.len() as int));
    } else {
        assert(a.subrange(0, a.len() as int) =~= a);
        assert(b.subrange(0, b.len() as int) =~= b);
    }
}

/// Whether `a` sorts before `b`.
pub fn str_lt(a: &str, b: &str) -> (r: bool)
    ensures
        r == text_lt(a@, b@),
{
    let n = a.unicode_len();
    let m = b.unicode_len();
    let mut i: usize = 0;
    while i < n && i < m && a.get_char(i) == b.get_char(i)
        invariant
            n == a@.len(),
            m == b@.len(),
            i <= n,
            i <= m,
            forall|j: int| 0 <= j < i ==> a@[j] == b@[j],
        decreases n - i,
    {
        i = i + 1;
    }
    proof {
        lemma_text_lt_skip(a@, b@, i as int);
    }
    let ghost sa = a@.subrange(i as int, n as int);
    let ghost sb = b@.subrange(i as int, m as int);
    if i == n {
        assert(sa.len() == 0);
        i < m
    } else if i == m {
        assert(sb.len() == 0 && sa.len() > 0);
        false
    } else {
        assert(sa[0] == a@[i as int] && sb[0] == b@[i as int]);
        (a.get_char(i) as u32) < (b.get_char(i) as u32)
    }
}

/// The characters of each string.
pub open spec fn texts(v: Seq<String>) -> Seq<Seq<char>> {
    v.map_values(|s: String| s@)
}

/// The names in order, each as often as it was given.
pub fn sort_names(names: Vec<String>) -> (r: Vec<String>)
    ensures
        sorted_texts(texts(r@)),
        texts(r@).to_multiset() == texts(names@).to_multiset(),
{
    broadcast use vstd::seq_lib::group_to_multiset_ensures;

    let n = names.len();
    let mut r: Vec<String> = Vec::new();
    let mut k: usize = 0;
    assert(texts(r@) =~= Seq::<Seq<char>>::empty());
    assert(texts(names@).take(0) =~= Seq::<Seq<char>>::empty());
    while k < n
        invariant
            n == names@.len(),
            k <= n,
            sorted_texts(texts(r@)),
            texts(r@).to_multiset() == texts(names@).take(k as int).to_multiset(),
        decreases n - k,
    {
        let x = names[k].clone();
        let ghost rv = texts(r@);
        let mut p: usize = 0;
        while p < r.len() && !str_lt(x.as_str(), r[p].as_str())
            invariant
                rv == texts(r@),
                p <= r@.len(),
                forall|j: int| 0 <= j < p ==> !text_lt(x@, #[trigger] rv[j]),
            decreases r@.len() - p,
        {
            p = p + 1;
        }
        r.insert(p, x);
        proof {
            let nv = texts(r@);
            assert(nv =~= rv.insert(p as int, x@));
            assert forall|i: int, j: int| 0 <= i < j < nv.len() implies !text_lt(#[trigger] nv[j], #[trigger] nv[i]) by {
                if j < p {
                    assert(nv[i] == rv[i] && nv[j] == rv[j]);
                } else if j == p {
                    assert(nv[i] == rv[i]);
                } else if i == p {
                    assert(nv[j] == rv[j - 1]);
                    assert(text_lt(x@, rv[p as int]));
                    if text_lt(rv[j - 1], x@) {
                        if j - 1 == p {
                            lemma_text_lt_asymmetric(x@, rv[p as int]);
                        } else {
                            assert(!text_lt(rv[j - 1], rv[p as int]));
                            lemma_text_lt_transitive(rv[j - 1], x@, rv[p as int]);
                        }
                    }
                } else if i < p {
                    assert(nv[i] == rv[i] && nv[j] == rv[j - 1]);
                } else {
                    assert(nv[i] == rv[i - 1] && nv[j] == rv[j - 1]);
                }
            }
            assert(nv.remove(p as int) =~= rv);
            assert(nv[p as int] == x@);
            assert(texts(names@).take(k + 1) =~= texts(names@).take(k as int).push(x@));
            nv.to_multiset_ensures();
            texts(names@).take(k as int).to_multiset_ensures();
            assert(nv.contains(x@));
            assert(nv.to_multiset().count(x@) > 0);
            assert(nv.to_multiset() =~= rv.to_multiset().insert(x@)) by {
                broadcast use vstd::multiset::group_multiset_properties;
            }
        }
        k = k + 1;
    }
    assert(texts(names@).take(n as int) =~= texts(names@));
    r
}

/// The name `org/repo` of a vendored repository directory.
pub open spec fn repo_name(d: (String, String)) -> Seq<char> {
    d.0@ + "/"@ + d.1@
}

/// The names of the repositories to update, in the order of the
/// directories: all but BuildKit and vtprotobuf.
pub open spec fn kept_repos(dirs: Seq<(String, String)>) -> Seq<Seq<char>>
    decreases dirs.len(),
{
    if dirs.len() == 0 {
        Seq::empty()
    } else {
        let rest = kept_repos(dirs.drop_last());
        let name = repo_name(dirs.last());
        if name == "moby/buildkit"@ || name == "planetscale/vtprotobuf"@ {
            rest
        } else {
            rest.push(name)
        }
    }
}

/// The repositories to update from BuildKit's vendor tree, given the
/// `(organization, repository)` directories found under `github.com`: all
/// but BuildKit and vtprotobuf, as `org/repo`, in order.
pub fn vendored_repos(dirs: &Vec<(String, String)>) -> (r: Vec<String>)
    ensures
        sorted_texts(texts(r@)),
        texts(r@).to_multiset() == kept_repos(dirs@).to_multiset(),
{
    let n = dirs.len();
    let mut names: Vec<String> = Vec::new();
    let mut i: usize = 0;
    assert(texts(names@) =~= kept_repos(dirs@.take(0)));
    while i < n
        invariant
            n == dirs@.len(),
            i <= n,
            texts(names@) == kept_repos(dirs@.take(i as int)),
        decreases n - i,
    {
        let ghost before = texts(names@);
        assert(dirs@.take(i + 1).drop_last() =~= dirs@.take(i as int));
        assert(dirs@.take(i + 1).last() == dirs@[i as int]);
        match vendored_repo(dirs[i].0.as_str(), dirs[i].1.as_str()) {
            Some(name) => {
                names.push(name);
                assert(texts(names@) =~= before.push(repo_name(dirs@[i as int])));
            },
            None => {},
        }
        i = i + 1;
    }
    assert(dirs@.take(n as int) =~= dirs@);
    sort_names(names)
}

// ------------------------------------------------------------------
// Go module versions
// ------------------------------------------------------------------

/// A text cut at each `\n`: the finished lines and the piece after the
/// last `\n`.
pub open spec fn line_split(s: Seq<char>) -> (Seq<Seq<char>>, Seq<char>)
    decreases s.len(),
{
    if s.len() == 0 {
        (Seq::empty(), Seq::empty())
    } else {
        let (done, cur) = line_split(s.drop_last());
        if s.last() == '\n' {
            (done.push(cur), Seq::empty())
        } else {
            (done, cur.push(s.last()))
        }
    }
}

/// The lines of a text, as `str::lines` yields them but with a `\r`
/// before a `\n` kept: no line follows a final `\n`. (Module entries are
/// read word by word, and `\r` is whitespace, so the kept `\r` changes
/// no entry.)
pub open spec fn text_lines(s: Seq<char>) -> Seq<Seq<char>> {
    let (done, cur) = line_split(s);
    if cur.len() > 0 {
        done.push(cur)
    } else {
        done
    }
}

/// A text cut at whitespace: the finished words and the word being read.
pub open spec fn word_split(s: Seq<char>) -> (Seq<Seq<char>>, Seq<char>)
    decreases s.len(),
{
    if s.len() == 0 {
        (Seq::empty(), Seq::empty())
    } else {
        let (done, cur) = word_split(s.drop_last());
        if is_ws(s.last()) {
            if cur.len() > 0 {
                (done.push(cur), Seq::empty())
            } else {
                (done, Seq::empty())
            }
        } else {
            (done, cur.push(s.last()))
        }
    }
}

/// The words of a text: its maximal runs of non-whitespace characters, as
/// `str::split_whitespace` yields them.
pub open spec fn words(s: Seq<char>) -> Seq<Seq<char>> {
    let (done, cur) = word_split(s);
    if cur.len() > 0 {
        done.push(cur)
    } else {
        done
    }
}

/// The module and version a line of `vendor/modules.txt` names: a line
/// `# <module> <version> ...` whose version starts with `v`.
pub open spec fn module_entry(line: Seq<char>) -> Option<(Seq<char>, Seq<char>)> {
    if line.len() >= 2 && line[0] == '#' && line[1] == ' ' {
        let w = words(line.subrange(2, line.len() as int));
        if w.len() >= 2 && w[1].len() > 0 && w[1][0] == 'v' {
            Some((w[0], w[1]))
        } else {
            None
        }
    } else {
        None
    }
}

/// The module entries of some lines, in order.
pub open spec fn module_entries(lines: Seq<Seq<char>>) -> Seq<(Seq<char>, Seq<char>)>
    decreases lines.len(),
{
    if lines.len() == 0 {
        Seq::empty()
    } else {
        let rest = module_entries(lines.drop_last());
        match module_entry(lines.last()) {
            Some(e) => rest.push(e),
            None => rest,
        }
    }
}

/// The module entries of a `vendor/modules.txt`, in order.
pub open spec fn module_versions(body: Seq<char>) -> Seq<(Seq<char>, Seq<char>)> {
    module_entries(text_lines(body))
}

/// The version that the entries give a module: that of its last entry, as
/// a map filled in order keeps it.
pub open spec fn version_of(entries: Seq<(Seq<char>, Seq<char>)>, module: Seq<char>) -> Option<Seq<char>>
    decreases entries.len(),
{
    if entries.len() == 0 {
        None
    } else if entries.last().0 == module {
        Some(entries.last().1)
    } else {
        version_of(entries.drop_last(), module)
    }
}

/// A later entry for a module replaces what earlier ones said of it, and
/// leaves every other module's version as it was.
pub proof fn lemma_later_entry_wins(
    entries: Seq<(Seq<char>, Seq<char>)>,
    module: Seq<char>,
    version: Seq<char>,
    other: Seq<char>,
)
    requires
        other != module,
    ensures
        version_of(entries.push((module, version)), module) == Some(version),
        version_of(entries.push((module, version)), other) == version_of(entries, other),
{
    assert(entries.push((module, version)).drop_last() =~= entries);
}

pub open spec fn entry_views(v: Seq<(String, String)>) -> Seq<(Seq<char>, Seq<char>)> {
    v.map_values(|e: (String, String)| (e.0@, e.1@))
}

/// The words of a text.
pub fn split_words(s: &str) -> (r: Vec<String>)
    ensures
        r@.map_values(|w: String| w@) == words(s@),
{
    let n = s.unicode_len();
    let mut done: Vec<String> = Vec::new();
    let mut cur = String::new();
    let mut i: usize = 0;
    while i < n
        invariant
            n == s@.len(),
            i <= n,
            (done@.map_values(|w: String| w@), cur@) == word_split(s@.subrange(0, i as int)),
        decreases n - i,
    {
        let c = s.get_char(i);
        let ghost before = done@.map_values(|w: String| w@);
        proof {
            assert(s@.subrange(0, i + 1).drop_last() =~= s@.subrange(0, i as int));
        }
        if char_is_ws(c) {
            if cur.as_str().unicode_len() > 0 {
                let w = cur;
                done.push(w);
                cur = String::new();
                assert(done@.map_values(|w: String| w@) =~= before.push(w@));
            }
        } else {
            push_char(&mut cur, c);
        }
        i = i + 1;
    }
    assert(s@.subrange(0, n as int) =~= s@);
    if cur.as_str().unicode_len() > 0 {
        let ghost before = done@.map_values(|w: String| w@);
        let w = cur;
        done.push(w);
        assert(done@.map_values(|w: String| w@) =~= before.push(w@));
    }
    done
}

/// The module and version a line of `vendor/modules.txt` names, if any.
pub fn module_entry_of(line: &str) -> (r: Option<(String, String)>)
    ensures
        match module_entry(line@) {
            Some(e) => r matches Some(p) && p.0@ == e.0 && p.1@ == e.1,
            None => r is None,
        },
{
    let n = line.unicode_len();
    if n < 2 || line.get_char(0) != '#' || line.get_char(1) != ' ' {
        return None;
    }
    let rest = substring(line, 2, n);
    let w = split_words(rest.as_str());
    proof {
        assert(w@.len() == words(rest@).len());
    }
    if w.len() < 2 {
        return None;
    }
    proof {
        assert(w@[0]@ == words(rest@)[0]);
        assert(w@[1]@ == words(rest@)[1]);
    }
    let v = w[1].as_str();
    if v.unicode_len() == 0 || v.get_char(0) != 'v' {
        return None;
    }
    Some((w[0].clone(), w[1].clone()))
}

/// The module entries of a `vendor/modules.txt`, in order.
pub fn parse_module_versions(body: &str) -> (r: Vec<(String, String)>)
    ensures
        entry_views(r@) == module_versions(body@),
{
    let n = body.unicode_len();
    let mut r: Vec<(String, String)> = Vec::new();
    let ghost mut done: Seq<Seq<char>> = Seq::empty();
    let mut cur = String::new();
    let mut i: usize = 0;
    while i < n
        invariant
            n == body@.len(),
            i <= n,
            (done, cur@) == line_split(body@.subrange(0, i as int)),
            entry_views(r@) == module_entries(done),
        decreases n - i,
    {
        let c = body.get_char(i);
        proof {
            assert(body@.subrange(0, i + 1).drop_last() =~= body@.subrange(0, i as int));
        }
        if c == '\n' {
            let ghost before = entry_views(r@);
            proof {
                assert(done.push(cur@).drop_last() =~= done);
            }
            match module_entry_of(cur.as_str()) {
                Some(e) => {
                    r.push(e);
                    assert(entry_views(r@) =~= before.push((e.0@, e.1@)));
                },
                None => {},
            }
            proof {
                done = done.push(cur@);
            }
            cur = String::new();
        } else {
            push_char(&mut cur, c);
        }
        i = i + 1;
    }
    assert(body@.subrange(0, n as int) =~= body@);
    if cur.as_str().unicode_len() > 0 {
        let ghost before = entry_views(r@);
        proof {
            assert(done.push(cur@).drop_last() =~= done);
        }
        match module_entry_of(cur.as_str()) {
            Some(e) => {
                r.push(e);
                assert(entry_views(r@) =~= before.push((e.0@, e.1@)));
            },
            None => {},
        }
    }
    r
}

/// The version the entries give a module, the last one listed.
pub fn module_version(entries: &Vec<(String, String)>, module: &str) -> (r: Option<String>)
    ensures
        match version_of(entry_views(entries@), module@) {
            Some(v) => r matches Some(s) && s@ == v,
            None => r is None,
        },
{
    let mut i = entries.len();
    assert(entries@.subrange(0, i as int) =~= entries@);
    while i > 0
        invariant
            i <= entries@.len(),
            version_of(entry_views(entries@), module@) == version_of(entry_views(entries@.subrange(0, i as int)), module@),
        decreases i,
    {
        let ghost sub = entry_views(entries@.subrange(0, i as int));
        proof {
            assert(sub.drop_last() =~= entry_views(entries@.subrange(0, i - 1)));
        }
        if str_eq(entries[i - 1].0.as_str(), module) {
            return Some(entries[i - 1].1.clone());
        }
        i = i - 1;
    }
    None
}


pub open spec fn is_hex(c: char) -> bool {
    ('0' <= c <= '9') || ('a' <= c <= 'f') || ('A' <= c <= 'F')
}

/// The position of the last `-`, if any.
pub open spec fn last_dash(s: Seq<char>) -> Option<int>
    decreases s.len(),
{
    if s.len() == 0 {
        None
    } else if s.last() == '-' {
        Some(s.len() - 1)
    } else {
        last_dash(s.drop_last())
    }
}

/// The Git ref of a Go module version: the commit of a pseudo-version (the
/// text after the last `-`, when it is at least 12 hexadecimal digits),
/// else the version itself.
pub open spec fn git_ref_of(version: Seq<char>) -> Seq<char> {
    match last_dash(version) {
        Some(i) => {
            let suffix = version.subrange(i + 1, version.len() as int);
            if suffix.len() >= 12 && forall|j: int| 0 <= j < suffix.len() ==> is_hex(#[trigger] suffix[j]) {
                suffix
            } else {
                version
            }
        },
        None => version,
    }
}

proof fn lemma_last_dash(s: Seq<char>, k: int)
    requires
        0 <= k <= s.len(),
        forall|j: int| k <= j < s.len() ==> #[trigger] s[j] != '-',
    ensures
        last_dash(s) == last_dash(s.subrange(0, k)),
    decreases s.len() - k,
{
    if k < s.len() {
        assert(s.drop_last().subrange(0, k) =~= s.subrange(0, k));
        assert forall|j: int| k <= j < s.drop_last().len() implies #[trigger] s.drop_last()[j] != '-' by {
            assert(s.drop_last()[j] == s[j]);
        }
        lemma_last_dash(s.drop_last(), k);
    } else {
        assert(s.subrange(0, k) =~= s);
    }
}

/// The Git ref to fetch a Go module version at.
pub fn go_module_version_git_ref(version: &str) -> (r: String)
    ensures
        r@ == git_ref_of(version@),
{
    let n = version.unicode_len();
    let mut k: usize = n;
    while k > 0 && version.get_char(k - 1) != '-'
        invariant
            n == version@.len(),
            k <= n,
            forall|j: int| k <= j < n ==> #[trigger] version@[j] != '-',
        decreases k,
    {
        k = k - 1;
    }
    proof {
        lemma_last_dash(version@, k as int);
    }
    if k == 0 {
        assert(version@.subrange(0, 0) =~= Seq::<char>::empty());
        return owned(version);
    }
    assert(last_dash(version@.subrange(0, k as int)) == Some(k - 1)) by {
        assert(version@.subrange(0, k as int).last() == '-');
    }
    let start = k;
    assert(last_dash(version@) == Some(start - 1));
    if n - start < 12 {
        assert(version@.subrange(start as int, n as int).len() < 12);
        return owned(version);
    }
    let mut j = start;
    while j < n
        invariant
            n == version@.len(),
            1 <= start <= j <= n,
            n - start >= 12,
            last_dash(version@) == Some(start - 1),
            forall|q: int| start <= q < j ==> is_hex(#[trigger] version@[q]),
        decreases n - j,
    {
        let c = version.get_char(j);
        if !(('0' <= c && c <= '9') || ('a' <= c && c <= 'f') || ('A' <= c && c <= 'F')) {
            proof {
                let suffix = version@.subrange(start as int, n as int);
                assert(!is_hex(suffix[j - start]));
            }
            return owned(version);
        }
        j = j + 1;
    }
    proof {
        let suffix = version@.subrange(start as int, n as int);
        assert forall|q: int| 0 <= q < suffix.len() implies is_hex(#[trigger] suffix[q]) by {
            assert(suffix[q] == version@[q + start]);
        }
    }
    substring(version, start, n)
}

/// The Git ref of vtprotobuf that BuildKit's module list pins, or the
/// message that it lists none.
pub fn vtproto_git_ref(entries: &Vec<(String, String)>) -> (r: Result<String, String>)
    ensures
        match version_of(entry_views(entries@), PLANETSCALE_VTPROTO_MODULE@) {
            Some(v) => r matches Ok(s) && s@ == git_ref_of(v),
            None => r matches Err(m) && m@ == "missing "@ + PLANETSCALE_VTPROTO_MODULE@
                + " in BuildKit vendor/modules.txt"@,
        },
{
    match module_version(entries, PLANETSCALE_VTPROTO_MODULE) {
        Some(v) => Ok(go_module_version_git_ref(v.as_str())),
        None => {
            let mut m = concat("missing ", PLANETSCALE_VTPROTO_MODULE);
            push_str(&mut m, " in BuildKit vendor/modules.txt");
            Err(m)
        },
    }
}

} // verus!

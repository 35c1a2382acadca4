//! The decisions of the `akk` command line: which command the arguments
//! name, what a release check reports, which packages to suggest after a
//! failed install, and what a package download came to. Running commands,
//! the network and the file system are left to the program around it.
use vstd::prelude::*;

use crate::parser::ast::strings_m;
use crate::text::{
    chars_of, contains_chars, contains_seq, lowercase, str_eq, string_from_chars, sub_chars,
    to_lowercase,
};

verus! {

/// A command of the `akk` program.
pub enum Command {
    /// Too few arguments: print the usage and fail.
    Usage,
    Version,
    Help,
    Check,
    /// `install` without a library name.
    InstallUsage,
    Install(String),
    Update(Option<String>),
    Uninstall,
    /// Run the program in the named file.
    Run(String),
}

/// The model of a command.
pub enum CommandM {
    Usage,
    Version,
    Help,
    Check,
    InstallUsage,
    Install(Seq<char>),
    Update(Option<Seq<char>>),
    Uninstall,
    Run(Seq<char>),
}

pub open spec fn command_m(c: Command) -> CommandM {
    match c {
        Command::Usage => CommandM::Usage,
        Command::Version => CommandM::Version,
        Command::Help => CommandM::Help,
        Command::Check => CommandM::Check,
        Command::InstallUsage => CommandM::InstallUsage,
        Command::Install(n) => CommandM::Install(n@),
        Command::Update(v) => CommandM::Update(
            match v {
                Some(s) => Some(s@),
                None => None,
            },
        ),
        Command::Uninstall => CommandM::Uninstall,
        Command::Run(f) => CommandM::Run(f@),
    }
}

/// The command that the arguments (the program's name first) name.
pub open spec fn command_spec(args: Seq<Seq<char>>) -> CommandM {
    if args.len() < 2 {
        CommandM::Usage
    } else {
        let a = args[1];
        if a == "--version"@ || a == "-v"@ || a == "version"@ {
            CommandM::Version
        } else if a == "--help"@ || a == "-h"@ || a == "help"@ {
            CommandM::Help
        } else if a == "--check"@ || a == "check"@ {
            CommandM::Check
        } else if a == "install"@ {
            if args.len() < 3 {
                CommandM::InstallUsage
            } else {
                CommandM::Install(args[2])
            }
        } else if a == "update"@ {
            CommandM::Update(
                if args.len() >= 3 {
                    Some(args[2])
                } else {
                    None
                },
            )
        } else if a == "uninstall"@ {
            CommandM::Uninstall
        } else {
            CommandM::Run(a)
        }
    }
}

/// Reads the command line; `args[0]` is the program's name.
pub fn parse_command(args: &Vec<String>) -> (r: Command)
    ensures
        command_m(r) == command_spec(strings_m(args@)),
{
    let ghost am = strings_m(args@);
    if args.len() < 2 {
        return Command::Usage;
    }
    let a = args[1].as_str();
    proof {
        assert(am[1] == a@);
    }
    if str_eq(a, "--version") || str_eq(a, "-v") || str_eq(a, "version") {
        Command::Version
    } else if str_eq(a, "--help") || str_eq(a, "-h") || str_eq(a, "help") {
        Command::Help
    } else if str_eq(a, "--check") || str_eq(a, "check") {
        Command::Check
    } else if str_eq(a, "install") {
        if args.len() < 3 {
            Command::InstallUsage
        } else {
            proof {
                assert(am[2] == args@[2]@);
            }
            Command::Install(args[2].clone())
        }
    } else if str_eq(a, "update") {
        if args.len() >= 3 {
            proof {
                assert(am[2] == args@[2]@);
            }
            Command::Update(Some(args[2].clone()))
        } else {
            Command::Update(None)
        }
    } else if str_eq(a, "uninstall") {
        Command::Uninstall
    } else {
        Command::Run(args[1].clone())
    }
}

/// The index of the first character at or after `i` that is not `v`.
pub open spec fn v_prefix_end(s: Seq<char>, i: int) -> int
    decreases s.len() - i,
{
    if i < 0 || i >= s.len() || s[i] != 'v' {
        i
    } else {
        v_prefix_end(s, i + 1)
    }
}

/// A release tag without the `v`s it starts with (`v1.2.0` is `1.2.0`).
pub open spec fn release_version_spec(tag: Seq<char>) -> Seq<char> {
    tag.subrange(v_prefix_end(tag, 0), tag.len() as int)
}

/// What a release check reports.
pub enum CheckOutcome {
    /// The release service named no release.
    NoRelease,
    /// The latest release is the running one.
    UpToDate(String),
    /// The latest release, which differs from the running one.
    Different(String),
}

/// What a release check reports, given the latest release's tag and the
/// running version.
pub fn check_outcome(latest_tag: &str, current: &str) -> (r: CheckOutcome)
    ensures
        latest_tag@.len() == 0 <==> r is NoRelease,
        r matches CheckOutcome::UpToDate(v) ==> v@ == release_version_spec(latest_tag@)
            && v@ == current@,
        r matches CheckOutcome::Different(v) ==> v@ == release_version_spec(latest_tag@)
            && v@ != current@,
        latest_tag@.len() > 0 ==> (r is UpToDate <==> release_version_spec(latest_tag@)
            == current@),
{
    let t = chars_of(latest_tag);
    let n = t.len();
    if n == 0 {
        return CheckOutcome::NoRelease;
    }
    let mut k: usize = 0;
    while k < n && t[k] == 'v'
        invariant
            n == t@.len(),
            k <= n,
            v_prefix_end(t@, 0) == v_prefix_end(t@, k as int),
        decreases n - k,
    {
        k += 1;
    }
    let v = sub_chars(t.as_slice(), k, n);
    let version = string_from_chars(v.as_slice());
    if str_eq(version.as_str(), current) {
        CheckOutcome::UpToDate(version)
    } else {
        CheckOutcome::Different(version)
    }
}

/// A package name is related to a query when, both in lower case, either
/// holds the other.
pub open spec fn is_related(name: Seq<char>, query: Seq<char>) -> bool {
    contains_seq(lowercase(name), lowercase(query)) || contains_seq(lowercase(query), lowercase(name))
}

/// The names related to the query, in their order.
pub open spec fn related_spec(names: Seq<Seq<char>>, query: Seq<char>) -> Seq<Seq<char>>
    decreases names.len(),
{
    if names.len() == 0 {
        Seq::empty()
    } else {
        let r = related_spec(names.drop_last(), query);
        if is_related(names.last(), query) {
            r.push(names.last())
        } else {
            r
        }
    }
}

/// How many names the list of available packages shows at most.
pub const AVAILABLE_SHOWN: usize = 20;

/// What to suggest after an install found no package of the given name.
pub enum Suggestions {
    /// The package index lists nothing.
    Nothing,
    /// The names related to the one asked for.
    DidYouMean(Vec<String>),
    /// None is related: the first names of the index.
    Available(Vec<String>),
}

/// The first `k` names, or all where there are fewer.
pub open spec fn first_names(names: Seq<Seq<char>>, k: nat) -> Seq<Seq<char>> {
    if names.len() <= k {
        names
    } else {
        names.take(k as int)
    }
}

/// What to suggest for a query, given the names the package index lists.
pub fn suggestions(names: &Vec<String>, query: &str) -> (r: Suggestions)
    ensures
        names@.len() == 0 <==> r is Nothing,
        r matches Suggestions::DidYouMean(v) ==> strings_m(v@) == related_spec(strings_m(names@), query@)
            && v@.len() > 0,
        r matches Suggestions::Available(v) ==> strings_m(v@) == first_names(
            strings_m(names@),
            AVAILABLE_SHOWN as nat,
        ) && related_spec(strings_m(names@), query@).len() == 0,
        names@.len() > 0 ==> (r is DidYouMean <==> related_spec(strings_m(names@), query@).len()
            > 0),
{
    if names.len() == 0 {
        return Suggestions::Nothing;
    }
    let ghost nm = strings_m(names@);
    let q = to_lowercase(query);
    let qc = chars_of(q.as_str());
    let mut related: Vec<String> = Vec::new();
    let mut i: usize = 0;
    while i < names.len()
        invariant
            nm == strings_m(names@),
            i <= names@.len(),
            qc@ == lowercase(query@),
            strings_m(related@) == related_spec(nm.take(i as int), query@),
        decreases names.len() - i,
    {
        let n = to_lowercase(names[i].as_str());
        let nc = chars_of(n.as_str());
        let hit = contains_chars(nc.as_slice(), qc.as_slice()) || contains_chars(qc.as_slice(), nc.as_slice());
        proof {
            assert(nm.take(i + 1).drop_last() =~= nm.take(i as int));
            assert(nm.take(i + 1).last() == names@[i as int]@);
        }
        if hit {
            let ghost before = related@;
            related.push(names[i].clone());
            proof {
                assert(strings_m(related@) =~= strings_m(before).push(names@[i as int]@));
            }
        }
        i += 1;
    }
    proof {
        assert(nm.take(names@.len() as int) =~= nm);
    }
    if related.len() > 0 {
        return Suggestions::DidYouMean(related);
    }
    let mut shown: Vec<String> = Vec::new();
    let mut j: usize = 0;
    while j < names.len() && j < AVAILABLE_SHOWN
        invariant
            nm == strings_m(names@),
            j <= names@.len(),
            j <= AVAILABLE_SHOWN,
            strings_m(shown@) == nm.take(j as int),
        decreases names.len() - j,
    {
        let ghost before = shown@;
        shown.push(names[j].clone());
        proof {
            assert(strings_m(shown@) =~= strings_m(before).push(names@[j as int]@));
            assert(nm.take(j + 1) =~= nm.take(j as int).push(nm[j as int]));
        }
        j += 1;
    }
    proof {
        if names@.len() <= AVAILABLE_SHOWN {
            assert(nm.take(names@.len() as int) =~= nm);
        }
    }
    Suggestions::Available(shown)
}

/// What came of fetching one file from the package repository.
pub enum Fetch {
    /// The file's text.
    Body(String),
    /// The reply came but its text could not be read; the reason.
    Unreadable(String),
    /// The server answered with an error status; the description.
    Status(u16, String),
    /// No reply at all; the reason.
    Failed(String),
}

/// What a package download came to.
pub enum InstallDownload {
    Downloaded { source: String, metadata: Option<String> },
    NotFound,
    NetworkError(String),
    ReadError(String),
}

/// What a package download came to, from the fetch of its source and the
/// text of its (optional) metadata: a missing source (status 404) means no
/// such package, any other error status or failure is a network error.
pub fn install_download(source: Fetch, metadata: Option<String>) -> (r: InstallDownload)
    ensures
        match source {
            Fetch::Body(s) => r matches InstallDownload::Downloaded { source: s2, metadata: m2 } && s2@
                == s@ && m2 == metadata,
            Fetch::Unreadable(e) => r matches InstallDownload::ReadError(e2) && e2@ == e@,
            Fetch::Status(code, e) => if code == 404 {
                r is NotFound
            } else {
                r matches InstallDownload::NetworkError(e2) && e2@ == e@
            },
            Fetch::Failed(e) => r matches InstallDownload::NetworkError(e2) && e2@ == e@,
        },
{
    match source {
        Fetch::Body(s) => InstallDownload::Downloaded { source: s, metadata },
        Fetch::Unreadable(e) => InstallDownload::ReadError(e),
        Fetch::Status(code, e) => {
            if code == 404 {
                InstallDownload::NotFound
            } else {
                InstallDownload::NetworkError(e)
            }
        },
        Fetch::Failed(e) => InstallDownload::NetworkError(e),
    }
}

/// Every name suggested as related is one of the index's names, and is
/// related to the query.
pub proof fn law_related_are_listed(names: Seq<Seq<char>>, query: Seq<char>)
    ensures
        forall|k: int|
            0 <= k < related_spec(names, query).len() ==> names.contains(
                #[trigger] related_spec(names, query)[k],
            ) && is_related(related_spec(names, query)[k], query),
    decreases names.len(),
{
    if names.len() > 0 {
        let front = names.drop_last();
        law_related_are_listed(front, query);
        let r = related_spec(front, query);
        let all = related_spec(names, query);
        assert forall|k: int| 0 <= k < all.len() implies names.contains(#[trigger] all[k])
            && is_related(all[k], query) by {
            if k < r.len() {
                assert(all[k] == r[k]);
                let j = choose|j: int| 0 <= j < front.len() && front[j] == r[k];
                assert(names[j] == front[j]);
            } else {
                assert(all[k] == names.last());
                assert(names[names.len() - 1] == names.last());
            }
        }
    }
}

proof fn lemma_v_prefix_end(s: Seq<char>, i: int)
    requires
        0 <= i <= s.len(),
    ensures
        i <= v_prefix_end(s, i) <= s.len(),
        v_prefix_end(s, i) < s.len() ==> s[v_prefix_end(s, i)] != 'v',
    decreases s.len() - i,
{
    if i < s.len() && s[i] == 'v' {
        lemma_v_prefix_end(s, i + 1);
    }
}

/// The version read from a release tag never starts with `v`, and a tag
/// with no leading `v` is the version itself.
pub proof fn law_release_version(tag: Seq<char>)
    ensures
        release_version_spec(tag).len() > 0 ==> release_version_spec(tag)[0] != 'v',
        (tag.len() == 0 || tag[0] != 'v') ==> release_version_spec(tag) == tag,
{
    lemma_v_prefix_end(tag, 0);
    if tag.len() == 0 || tag[0] != 'v' {
        assert(tag.subrange(0, tag.len() as int) =~= tag);
    }
}

proof fn lemma_cmd_version(p: Seq<char>, rest: Seq<Seq<char>>, name: Seq<char>)
    ensures
        command_spec(seq![p, "--version"@] + rest) == CommandM::Version,
        command_spec(seq![p, "-v"@] + rest) == CommandM::Version,
        command_spec(seq![p, "version"@] + rest) == CommandM::Version,
{
    reveal_strlit("--version");
    reveal_strlit("-v");
    reveal_strlit("version");
    reveal_strlit("--help");
    reveal_strlit("-h");
    reveal_strlit("help");
    reveal_strlit("--check");
    reveal_strlit("check");
    reveal_strlit("install");
    reveal_strlit("update");
    reveal_strlit("uninstall");
    assert((seq![p, "--version"@] + rest)[1] == "--version"@);
    assert((seq![p, "-v"@] + rest)[1] == "-v"@);
    assert((seq![p, "version"@] + rest)[1] == "version"@);
}

proof fn lemma_cmd_help(p: Seq<char>, rest: Seq<Seq<char>>, name: Seq<char>)
    ensures
        command_spec(seq![p, "--help"@] + rest) == CommandM::Help,
        command_spec(seq![p, "-h"@] + rest) == CommandM::Help,
        command_spec(seq![p, "help"@] + rest) == CommandM::Help,
{
    reveal_strlit("--version");
    reveal_strlit("-v");
    reveal_strlit("version");
    reveal_strlit("--help");
    reveal_strlit("-h");
    reveal_strlit("help");
    reveal_strlit("--check");
    reveal_strlit("check");
    reveal_strlit("install");
    reveal_strlit("update");
    reveal_strlit("uninstall");
    assert("-h"@[1] != "-v"@[1]);
    assert("--help"@[2] != "--version"@[2]);
    assert((seq![p, "--help"@] + rest)[1] == "--help"@);
    assert((seq![p, "-h"@] + rest)[1] == "-h"@);
    assert((seq![p, "help"@] + rest)[1] == "help"@);
}

proof fn lemma_cmd_check(p: Seq<char>, rest: Seq<Seq<char>>, name: Seq<char>)
    ensures
        command_spec(seq![p, "--check"@] + rest) == CommandM::Check,
        command_spec(seq![p, "check"@] + rest) == CommandM::Check,
        command_spec(seq![p, "uninstall"@] + rest) == CommandM::Uninstall,
{
    reveal_strlit("--version");
    reveal_strlit("-v");
    reveal_strlit("version");
    reveal_strlit("--help");
    reveal_strlit("-h");
    reveal_strlit("help");
    reveal_strlit("--check");
    reveal_strlit("check");
    reveal_strlit("install");
    reveal_strlit("update");
    reveal_strlit("uninstall");
    assert("--check"@[2] != "--version"@[2]);
    assert("--check"@[2] != "--help"@[2]);
    assert((seq![p, "--check"@] + rest)[1] == "--check"@);
    assert((seq![p, "check"@] + rest)[1] == "check"@);
    assert((seq![p, "uninstall"@] + rest)[1] == "uninstall"@);
}

proof fn lemma_cmd_install(p: Seq<char>, rest: Seq<Seq<char>>, name: Seq<char>)
    ensures
        command_spec(seq![p, "install"@]) == CommandM::InstallUsage,
        command_spec(seq![p, "install"@, name] + rest) == CommandM::Install(name),
{
    reveal_strlit("--version");
    reveal_strlit("-v");
    reveal_strlit("version");
    reveal_strlit("--help");
    reveal_strlit("-h");
    reveal_strlit("help");
    reveal_strlit("--check");
    reveal_strlit("check");
    reveal_strlit("install");
    reveal_strlit("update");
    reveal_strlit("uninstall");
    assert("install"@[0] != "version"@[0]);
    assert("install"@[0] != "--check"@[0]);
    assert(seq![p, "install"@][1] == "install"@);
    assert((seq![p, "install"@, name] + rest)[1] == "install"@);
    assert((seq![p, "install"@, name] + rest)[2] == name);
}

proof fn lemma_cmd_update(p: Seq<char>, rest: Seq<Seq<char>>, name: Seq<char>)
    ensures
        command_spec(seq![p, "update"@]) == CommandM::Update(None),
        command_spec(seq![p, "update"@, name] + rest) == CommandM::Update(Some(name)),
{
    reveal_strlit("--version");
    reveal_strlit("-v");
    reveal_strlit("version");
    reveal_strlit("--help");
    reveal_strlit("-h");
    reveal_strlit("help");
    reveal_strlit("--check");
    reveal_strlit("check");
    reveal_strlit("install");
    reveal_strlit("update");
    reveal_strlit("uninstall");
    assert("update"@[0] != "--help"@[0]);
    assert(seq![p, "update"@][1] == "update"@);
    assert((seq![p, "update"@, name] + rest)[1] == "update"@);
    assert((seq![p, "update"@, name] + rest)[2] == name);
}

/// The first argument after the program's name picks the command, whatever
/// the program is called and whatever follows: "--version", "-v" or
/// "version" shows the version; "--help", "-h" or "help" the help;
/// "--check" or "check" checks for updates; "uninstall" uninstalls;
/// "install" with a name installs that name, without one shows how to use
/// it; "update" updates the name that follows, or everything; with no
/// argument the usage is shown.
pub proof fn law_command_flags(p: Seq<char>, rest: Seq<Seq<char>>, name: Seq<char>)
    ensures
        command_spec(seq![p, "--version"@] + rest) == CommandM::Version,
        command_spec(seq![p, "-v"@] + rest) == CommandM::Version,
        command_spec(seq![p, "version"@] + rest) == CommandM::Version,
        command_spec(seq![p, "--help"@] + rest) == CommandM::Help,
        command_spec(seq![p, "-h"@] + rest) == CommandM::Help,
        command_spec(seq![p, "help"@] + rest) == CommandM::Help,
        command_spec(seq![p, "--check"@] + rest) == CommandM::Check,
        command_spec(seq![p, "check"@] + rest) == CommandM::Check,
        command_spec(seq![p, "uninstall"@] + rest) == CommandM::Uninstall,
        command_spec(seq![p, "install"@]) == CommandM::InstallUsage,
        command_spec(seq![p, "install"@, name] + rest) == CommandM::Install(name),
        command_spec(seq![p, "update"@]) == CommandM::Update(None),
        command_spec(seq![p, "update"@, name] + rest) == CommandM::Update(Some(name)),
        command_spec(seq![p]) == CommandM::Usage,
{
    lemma_cmd_version(p, rest, name);
    lemma_cmd_help(p, rest, name);
    lemma_cmd_check(p, rest, name);
    lemma_cmd_install(p, rest, name);
    lemma_cmd_update(p, rest, name);
}

/// A first argument that names no command is the program file to run.
pub proof fn law_command_runs_file(p: Seq<char>, a: Seq<char>, rest: Seq<Seq<char>>)
    requires
        a != "--version"@ && a != "-v"@ && a != "version"@ && a != "--help"@ && a != "-h"@ && a
            != "help"@ && a != "--check"@ && a != "check"@ && a != "install"@ && a != "update"@ && a
            != "uninstall"@,
    ensures
        command_spec(seq![p, a] + rest) == CommandM::Run(a),
{
    assert((seq![p, a] + rest)[1] == a);
}

/// The names suggested for a query are exactly the names of the index
/// whose lower-cased form holds the lower-cased query anywhere, or is held
/// in it.
pub proof fn law_suggested_names(names: Seq<Seq<char>>, query: Seq<char>, x: Seq<char>)
    ensures
        related_spec(names, query).contains(x) <==> names.contains(x) && (contains_seq(
            lowercase(x),
            lowercase(query),
        ) || contains_seq(lowercase(query), lowercase(x))),
    decreases names.len(),
{
    if names.len() > 0 {
        let front = names.drop_last();
        law_suggested_names(front, query, x);
        let r = related_spec(front, query);
        assert(names =~= front.push(names.last()));
        if names.contains(x) && x != names.last() {
            let j = choose|j: int| 0 <= j < names.len() && names[j] == x;
            assert(j < front.len());
            assert(front[j] == x);
        }
        if front.contains(x) {
            let j = choose|j: int| 0 <= j < front.len() && front[j] == x;
            assert(names[j] == x);
        }
        if is_related(names.last(), query) {
            assert(related_spec(names, query) == r.push(names.last()));
            if r.push(names.last()).contains(x) && x != names.last() {
                let j = choose|j: int| 0 <= j < r.push(names.last()).len() && r.push(names.last())[j] == x;
                assert(r[j] == x);
            }
            if r.contains(x) {
                let j = choose|j: int| 0 <= j < r.len() && r[j] == x;
                assert(r.push(names.last())[j] == x);
            }
            assert(r.push(names.last())[r.len() as int] == names.last());
            assert(names[names.len() - 1] == names.last());
        } else {
            assert(names[names.len() - 1] == names.last());
        }
    }
}

/// When nothing is related, the index's names are listed from the first
/// one, in order, at most `AVAILABLE_SHOWN` of them.
pub proof fn law_available_names(names: Seq<Seq<char>>)
    ensures
        first_names(names, AVAILABLE_SHOWN as nat).len() == if names.len() <= 20 { names.len() } else { 20 },
        forall|i: int| 0 <= i < first_names(names, AVAILABLE_SHOWN as nat).len() ==> #[trigger] first_names(
            names,
            AVAILABLE_SHOWN as nat,
        )[i] == names[i],
{
}

} // verus!

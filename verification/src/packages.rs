//! Packages: their names, which of them are installed, and the commands that change that.

use vstd::hash_map::*;
use vstd::prelude::*;
use vstd::string::*;
use vstd::utf8::*;
use crate::pm::{law_name_of_named, name_of, named, Pm};
use crate::process::{command, success_text, text_of_success, CommandLine, CommandV, Output};
use crate::text::{
    all_ink,
    all_white,
    chars_of,
    first_char,
    ink_at_ends,
    is_digit,
    is_white,
    law_line_is_read_back,
    law_lines_of_both,
    law_one_word,
    law_trim_undoes_padding,
    law_words_of_both,
    lines,
    lossy,
    opt_text,
    split_lines,
    split_words,
    texts,
    trim,
    trimmed,
    words,
};

verus! {

/// The version of a package whose program is on disk though the package manager does not know it.
/// The user is then offered a clean reinstall.
pub const MANUAL_VER: &'static str = "manual";

/// The installed packages and their versions.
pub struct Installed {
    entries: StringHashMap<String>,
}

impl View for Installed {
    type V = Map<Seq<char>, Seq<char>>;

    closed spec fn view(&self) -> Map<Seq<char>, Seq<char>> {
        self.entries@.map_values(|s: String| s@)
    }
}

impl Installed {
    /// No package at all.
    pub fn none() -> (r: Installed)
        ensures
            r@ == Map::<Seq<char>, Seq<char>>::empty(),
    {
        let r = Installed { entries: StringHashMap::new() };
        assert(r@ =~= Map::<Seq<char>, Seq<char>>::empty());
        r
    }

    /// Records `version` as that of the package called `name`.
    pub fn record(&mut self, name: String, version: String)
        ensures
            final(self)@ == old(self)@.insert(name@, version@),
    {
        self.entries.insert(name, version);
        assert(self@ =~= old(self)@.insert(name@, version@));
    }

    /// The version of the package called `name`.
    pub fn version(&self, name: &str) -> (r: Option<String>)
        ensures
            opt_text(r) == (if self@.contains_key(name@) {
                Some(self@[name@])
            } else {
                None
            }),
    {
        match self.entries.get(name) {
            Some(v) => Some(v.clone()),
            None => None,
        }
    }
}

/// What the lines of a package list record: the first word of a line names a package and the second
/// is its version, a later line counts over an earlier one, and other lines count for nothing.
pub open spec fn listed(ls: Seq<Seq<char>>) -> Map<Seq<char>, Seq<char>>
    decreases ls.len(),
{
    if ls.len() == 0 {
        Map::empty()
    } else {
        let before = listed(ls.drop_last());
        let ws = words(ls.last());
        if ws.len() >= 2 {
            before.insert(ws[0], ws[1])
        } else {
            before
        }
    }
}

/// A line that names `pkg` and its version.
pub open spec fn line_for(line: Seq<char>, pkg: Seq<char>) -> bool {
    words(line).len() >= 2 && words(line)[0] == pkg
}

/// The version of a package is that of the last line for it, and a package without a line is not
/// installed.
pub proof fn law_last_line_counts(ls: Seq<Seq<char>>, pkg: Seq<char>)
    ensures
        forall|i: int|
            #![trigger ls[i]]
            0 <= i < ls.len() && line_for(ls[i], pkg) && (forall|j: int|
                i < j < ls.len() ==> !line_for(#[trigger] ls[j], pkg)) ==> listed(
                ls,
            ).contains_key(pkg) && listed(ls)[pkg] == words(ls[i])[1],
        (forall|i: int| 0 <= i < ls.len() ==> !line_for(#[trigger] ls[i], pkg)) ==> !listed(
            ls,
        ).contains_key(pkg),
    decreases ls.len(),
{
    if ls.len() > 0 {
        let front = ls.drop_last();
        law_last_line_counts(front, pkg);
        assert forall|i: int|
            #![trigger ls[i]]
            0 <= i < ls.len() && line_for(ls[i], pkg) && (forall|j: int|
                i < j < ls.len() ==> !line_for(#[trigger] ls[j], pkg)) implies listed(
            ls,
        ).contains_key(pkg) && listed(ls)[pkg] == words(ls[i])[1] by {
            if i < front.len() {
                assert(front[i] == ls[i]);
                assert(!line_for(ls[ls.len() - 1], pkg));
                assert forall|j: int| i < j < front.len() implies !line_for(
                    #[trigger] front[j],
                    pkg,
                ) by {
                    assert(front[j] == ls[j]);
                }
            }
        }
        if forall|i: int| 0 <= i < ls.len() ==> !line_for(#[trigger] ls[i], pkg) {
            assert forall|i: int| 0 <= i < front.len() implies !line_for(#[trigger] front[i], pkg) by {
                assert(front[i] == ls[i]);
            }
            assert(!line_for(ls[ls.len() - 1], pkg));
        }
    }
}

/// The command that lists every installed package with its version.
pub open spec fn list_command(pm: Pm) -> CommandV {
    match pm {
        Pm::Pacman => command("pacman"@, seq!["-Q"@]),
        Pm::Dnf => command("rpm"@, seq!["-qa"@, "--qf"@, "%{NAME} %{VERSION}-%{RELEASE}\n"@]),
        Pm::Apt => command("dpkg-query"@, seq!["-W"@, "-f=${Package} ${Version}\n"@]),
    }
}

/// The command that lists every installed package with its version.
pub fn installed_query(pm: Pm) -> (r: CommandLine)
    ensures
        r@ == list_command(pm),
{
    match pm {
        Pm::Pacman => CommandLine::new("pacman").arg("-Q"),
        Pm::Dnf => CommandLine::new("rpm").arg("-qa").arg("--qf").arg(
            "%{NAME} %{VERSION}-%{RELEASE}\n",
        ),
        Pm::Apt => CommandLine::new("dpkg-query").arg("-W").arg("-f=${Package} ${Version}\n"),
    }
}

/// What a package list records.
pub fn parse_installed(list: &str) -> (r: Installed)
    ensures
        r@ == listed(lines(list@)),
{
    let ls = split_lines(list);
    let ghost seen = texts(ls@);
    let mut r = Installed::none();
    let mut i: usize = 0;
    assert(seen.take(0) =~= Seq::empty());
    while i < ls.len()
        invariant
            i <= ls@.len(),
            seen == texts(ls@),
            r@ == listed(seen.take(i as int)),
        decreases ls@.len() - i,
    {
        let ws = split_words(ls[i].as_str());
        let ghost next = seen.take(i + 1);
        assert(next.drop_last() =~= seen.take(i as int));
        assert(next.last() == ls@[i as int]@);
        if ws.len() >= 2 {
            assert(words(next.last())[0] == ws@[0]@);
            assert(words(next.last())[1] == ws@[1]@);
            r.record(ws[0].clone(), ws[1].clone());
        }
        i = i + 1;
    }
    assert(seen.take(i as int) =~= seen);
    r
}

/// The installed packages, from what the listing command left behind; none where it failed.
pub fn installed_versions(out: &Option<Output>) -> (r: Installed)
    ensures
        r@ == (match success_text(*out) {
            Some(list) => listed(lines(list)),
            None => Map::empty(),
        }),
{
    match text_of_success(out) {
        Some(list) => parse_installed(list.as_str()),
        None => Installed::none(),
    }
}

/// The version to show for a package that the package manager may not know: a program on disk
/// counts as installed in an unknown version.
pub open spec fn or_manual(known: Option<Seq<char>>, on_disk: bool) -> Option<Seq<char>> {
    match known {
        Some(v) => Some(v),
        None => if on_disk {
            Some(MANUAL_VER@)
        } else {
            None
        },
    }
}

/// The installed version of `pkg`, where `on_disk` tells whether its program exists.
pub fn lookup_installed(map: &Installed, pkg: &str, on_disk: bool) -> (r: Option<String>)
    ensures
        opt_text(r) == or_manual(
            if map@.contains_key(pkg@) {
                Some(map@[pkg@])
            } else {
                None
            },
            on_disk,
        ),
{
    match map.version(pkg) {
        Some(v) => Some(v),
        None => if on_disk {
            Some(MANUAL_VER.to_owned())
        } else {
            None
        },
    }
}

/// The files by which the program of `pkg` is recognised on disk.
pub fn program_paths(pkg: &str) -> (r: Vec<String>)
    ensures
        texts(r@) == seq!["/usr/bin"@ + "/"@ + pkg@, "/usr/local/bin"@ + "/"@ + pkg@, "/bin"@ + "/"@ + pkg@],
{
    let mut r: Vec<String> = Vec::new();
    r.push("/usr/bin".to_owned().concat("/").concat(pkg));
    r.push("/usr/local/bin".to_owned().concat("/").concat(pkg));
    r.push("/bin".to_owned().concat("/").concat(pkg));
    r
}

/// The command that asks for the version of one package.
pub open spec fn version_command(pm: Pm, pkg: Seq<char>) -> CommandV {
    match pm {
        Pm::Pacman => command("pacman"@, seq!["-Q"@, pkg]),
        Pm::Dnf => command("rpm"@, seq!["-q"@, "--qf"@, "%{VERSION}-%{RELEASE}"@, pkg]),
        Pm::Apt => command("dpkg-query"@, seq!["-W"@, "-f=${Version}"@, pkg]),
    }
}

/// The command that asks for the version of `pkg`.
pub fn version_query(pm: Pm, pkg: &str) -> (r: CommandLine)
    ensures
        r@ == version_command(pm, pkg@),
{
    match pm {
        Pm::Pacman => CommandLine::new("pacman").arg("-Q").arg(pkg),
        Pm::Dnf => CommandLine::new("rpm").arg("-q").arg("--qf").arg("%{VERSION}-%{RELEASE}").arg(
            pkg,
        ),
        Pm::Apt => CommandLine::new("dpkg-query").arg("-W").arg("-f=${Version}").arg(pkg),
    }
}

/// The version in the answer of a package manager. Pacman writes the name before it. What rpm
/// writes is a version only where it starts with a digit, so that a localised message is not taken
/// for one.
pub open spec fn version_in(pm: Pm, answer: Seq<char>) -> Option<Seq<char>> {
    let t = trimmed(answer);
    match pm {
        Pm::Pacman => if words(t).len() >= 2 {
            Some(words(t)[1])
        } else {
            None
        },
        Pm::Dnf => if t.len() > 0 && is_digit(t[0]) {
            Some(t)
        } else {
            None
        },
        Pm::Apt => if t.len() > 0 {
            Some(t)
        } else {
            None
        },
    }
}

/// The version in the answer of a package manager.
pub fn parse_version(pm: Pm, answer: &str) -> (r: Option<String>)
    ensures
        opt_text(r) == version_in(pm, answer@),
{
    let t = trim(answer);
    match pm {
        Pm::Pacman => {
            let ws = split_words(t.as_str());
            if ws.len() >= 2 {
                assert(words(t@)[1] == ws@[1]@);
                Some(ws[1].clone())
            } else {
                None
            }
        },
        Pm::Dnf => match first_char(t.as_str()) {
            Some(c) => if '0' <= c && c <= '9' {
                Some(t)
            } else {
                None
            },
            None => None,
        },
        Pm::Apt => if t.as_str().is_empty() {
            None
        } else {
            Some(t)
        },
    }
}

/// The version of a package, from what the version query left behind and whether the program of
/// the package exists.
pub fn pkg_version(pm: Pm, out: &Option<Output>, on_disk: bool) -> (r: Option<String>)
    ensures
        opt_text(r) == or_manual(
            match success_text(*out) {
                Some(answer) => version_in(pm, answer),
                None => None,
            },
            on_disk,
        ),
{
    if let Some(answer) = text_of_success(out) {
        if let Some(v) = parse_version(pm, answer.as_str()) {
            return Some(v);
        }
    }
    if on_disk {
        Some(MANUAL_VER.to_owned())
    } else {
        None
    }
}

/// Whether a package is installed, from what the version query left behind and whether the program
/// of the package exists.
pub fn is_installed(pm: Pm, out: &Option<Output>, on_disk: bool) -> (r: bool)
    ensures
        r == (on_disk || (success_text(*out) matches Some(answer) && version_in(pm, answer) is Some)),
{
    pkg_version(pm, out, on_disk).is_some()
}

/// A character that package names use.
pub open spec fn name_char(c: char) -> bool {
    ||| 'a' <= c <= 'z'
    ||| 'A' <= c <= 'Z'
    ||| '0' <= c <= '9'
    ||| c == '.'
    ||| c == '-'
    ||| c == '_'
    ||| c == '+'
    ||| c == '@'
    ||| c == ':'
}

/// A plausible package name: not empty, at most 128 bytes, of the characters that package names
/// use, and not starting with a dash, which the package managers would take for an option.
pub open spec fn valid_name(p: Seq<char>) -> bool {
    &&& p.len() > 0
    &&& encode_utf8(p).len() <= 128
    &&& p[0] != '-'
    &&& forall|i: int| 0 <= i < p.len() ==> name_char(#[trigger] p[i])
}

/// Whether `p` is a plausible package name.
pub fn valid_pkg_name(p: &str) -> (r: bool)
    ensures
        r == valid_name(p@),
{
    if p.is_empty() || p.as_bytes().len() > 128 {
        return false;
    }
    let v = chars_of(p);
    if v[0] == '-' {
        return false;
    }
    let mut i: usize = 0;
    while i < v.len()
        invariant
            i <= v@.len(),
            v@ == p@,
            forall|k: int| 0 <= k < i ==> name_char(#[trigger] v@[k]),
        decreases v@.len() - i,
    {
        let c = v[i];
        if !(('a' <= c && c <= 'z') || ('A' <= c && c <= 'Z') || ('0' <= c && c <= '9') || c == '.'
            || c == '-' || c == '_' || c == '+' || c == '@' || c == ':') {
            assert(!name_char(v@[i as int]));
            return false;
        }
        i = i + 1;
    }
    true
}

/// A plausible package name is neither an option of a command nor a path, and it is a single word
/// of at most 128 characters.
pub proof fn law_valid_name_is_plain(p: Seq<char>)
    requires
        valid_name(p),
    ensures
        p[0] != '-',
        !p.contains('/'),
        forall|i: int| 0 <= i < p.len() ==> !crate::text::is_white(#[trigger] p[i]),
        p.len() <= 128,
{
    assert forall|i: int| 0 <= i < p.len() implies #[trigger] p[i] != '/'
        && !crate::text::is_white(p[i]) by {
        assert(name_char(p[i]));
    }
    assert(is_ascii_chars(p)) by {
        assert forall|i: int| 0 <= i < p.len() implies 0 <= #[trigger] p[i] < 128 by {
            assert(name_char(p[i]));
        }
    }
    is_ascii_chars_encode_utf8(p);
}

/// The message for a name that is no plausible package name.
pub open spec fn bad_name(pkg: Seq<char>) -> Seq<char> {
    "Nombre de paquete inválido: "@ + pkg
}

/// `r` is the command, where `pkg` is a plausible package name, and else the message that says so.
pub open spec fn named_command(
    r: Result<CommandLine, String>,
    pkg: Seq<char>,
    cmd: CommandV,
) -> bool {
    match r {
        Ok(c) => valid_name(pkg) && c@ == cmd,
        Err(e) => !valid_name(pkg) && e@ == bad_name(pkg),
    }
}

fn bad_name_message(pkg: &str) -> (r: String)
    ensures
        r@ == bad_name(pkg@),
{
    "Nombre de paquete inválido: ".to_owned().concat(pkg)
}

/// The command that starts the application of a package: the program of that name.
pub fn launch_app(pkg: &str) -> (r: Result<CommandLine, String>)
    ensures
        named_command(r, pkg@, command(pkg@, Seq::empty())),
{
    if !valid_pkg_name(pkg) {
        return Err(bad_name_message(pkg));
    }
    Ok(CommandLine::new(pkg))
}

/// The message for an application that could not be started.
pub fn launch_failure(pkg: &str, cause: &str) -> (r: String)
    ensures
        r@ == "No se pudo lanzar "@ + pkg@ + ": "@ + cause@,
{
    "No se pudo lanzar ".to_owned().concat(pkg).concat(": ").concat(cause)
}

/// The command that installs a package file.
pub open spec fn file_command(pm: Pm, path: Seq<char>) -> CommandV {
    match pm {
        Pm::Pacman => command("pacman"@, seq!["-U"@, "--noconfirm"@, path]),
        Pm::Dnf => command("dnf"@, seq!["install"@, "-y"@, "--allowerasing"@, path]),
        Pm::Apt => command("apt"@, seq!["install"@, "-y"@, "--allow-downgrades"@, path]),
    }
}

/// The command that installs the package file at `path`.
pub fn install_pkg_file(pm: Pm, path: &str) -> (r: CommandLine)
    ensures
        r@ == file_command(pm, path@),
{
    match pm {
        Pm::Pacman => CommandLine::new("pacman").arg("-U").arg("--noconfirm").arg(path),
        Pm::Dnf => CommandLine::new("dnf").arg("install").arg("-y").arg("--allowerasing").arg(path),
        Pm::Apt => CommandLine::new("apt").arg("install").arg("-y").arg("--allow-downgrades").arg(
            path,
        ),
    }
}

/// The message for a package file that is not there.
pub fn missing_file(path: &str, cause: &str) -> (r: String)
    ensures
        r@ == "Archivo no existe: "@ + path@ + " ("@ + cause@ + ")"@,
{
    "Archivo no existe: ".to_owned().concat(path).concat(" (").concat(cause).concat(")")
}

/// The command that installs a package by name from the configured repositories.
pub open spec fn install_command(pm: Pm, pkg: Seq<char>) -> CommandV {
    match pm {
        Pm::Pacman => command("pacman"@, seq!["-Sy"@, "--noconfirm"@, pkg]),
        Pm::Dnf => command("dnf"@, seq!["install"@, "-y"@, "--refresh"@, pkg]),
        Pm::Apt => command("apt"@, seq!["install"@, "-y"@, pkg]),
    }
}

/// The command that installs `pkg` from the configured repositories.
pub fn install_pkg_by_name(pm: Pm, pkg: &str) -> (r: Result<CommandLine, String>)
    ensures
        named_command(r, pkg@, install_command(pm, pkg@)),
{
    if !valid_pkg_name(pkg) {
        return Err(bad_name_message(pkg));
    }
    let cmd = match pm {
        Pm::Pacman => CommandLine::new("pacman").arg("-Sy").arg("--noconfirm").arg(pkg),
        Pm::Dnf => CommandLine::new("dnf").arg("install").arg("-y").arg("--refresh").arg(pkg),
        Pm::Apt => CommandLine::new("apt").arg("install").arg("-y").arg(pkg),
    };
    assert(cmd@ =~= install_command(pm, pkg@));
    Ok(cmd)
}

/// The command that brings every package up to date.
pub open spec fn upgrade_command(pm: Pm) -> CommandV {
    match pm {
        Pm::Pacman => command("pacman"@, seq!["-Syu"@, "--noconfirm"@]),
        Pm::Dnf => command("dnf"@, seq!["upgrade"@, "-y"@, "--refresh"@]),
        Pm::Apt => command("sh"@, seq!["-c"@, "apt update && apt upgrade -y"@]),
    }
}

/// The command that brings every package up to date.
pub fn upgrade_all(pm: Pm) -> (r: CommandLine)
    ensures
        r@ == upgrade_command(pm),
{
    match pm {
        Pm::Pacman => CommandLine::new("pacman").arg("-Syu").arg("--noconfirm"),
        Pm::Dnf => CommandLine::new("dnf").arg("upgrade").arg("-y").arg("--refresh"),
        Pm::Apt => CommandLine::new("sh").arg("-c").arg("apt update && apt upgrade -y"),
    }
}

/// The command that removes a package.
pub open spec fn remove_command(pm: Pm, pkg: Seq<char>) -> CommandV {
    match pm {
        Pm::Pacman => command("pacman"@, seq!["-Rs"@, "--noconfirm"@, pkg]),
        Pm::Dnf => command("dnf"@, seq!["remove"@, "-y"@, pkg]),
        Pm::Apt => command("apt"@, seq!["remove"@, "-y"@, pkg]),
    }
}

/// The command that removes `pkg`; its result goes to [`uninstalled`].
pub fn uninstall_pkg(pm: Pm, pkg: &str) -> (r: Result<CommandLine, String>)
    ensures
        named_command(r, pkg@, remove_command(pm, pkg@)),
{
    if !valid_pkg_name(pkg) {
        return Err(bad_name_message(pkg));
    }
    let cmd = match pm {
        Pm::Pacman => CommandLine::new("pacman").arg("-Rs").arg("--noconfirm").arg(pkg),
        Pm::Dnf => CommandLine::new("dnf").arg("remove").arg("-y").arg(pkg),
        Pm::Apt => CommandLine::new("apt").arg("remove").arg("-y").arg(pkg),
    };
    assert(cmd@ =~= remove_command(pm, pkg@));
    Ok(cmd)
}

/// What is told of the removal of a package, from the result of its command: `ok`, and not what the
/// command wrote, or why it failed.
pub fn uninstalled(run: Result<String, String>) -> (r: Result<String, String>)
    ensures
        match run {
            Ok(_) => r matches Ok(told) && told@ == "ok"@,
            Err(e) => r matches Err(message) && message@ == e@,
        },
{
    match run {
        Ok(_) => Ok("ok".to_owned()),
        Err(e) => Err(e),
    }
}

/// The version that the package manager records is the one that is shown, whether or not the program
/// is on disk. A package that it does not record counts as installed by hand exactly where its
/// program is on disk.
pub proof fn law_recorded_version_wins(
    map: &Installed,
    pkg: &str,
    on_disk: bool,
    r: Option<String>,
)
    requires
        call_ensures(lookup_installed, (map, pkg, on_disk), r),
    ensures
        map@.contains_key(pkg@) ==> (r matches Some(v) && v@ == map@[pkg@]),
        !map@.contains_key(pkg@) && on_disk ==> (r matches Some(v) && v@ == "manual"@),
        !map@.contains_key(pkg@) && !on_disk ==> r is None,
{
}

/// A program on disk changes nothing where the package manager tells a version, and is all that
/// counts where it tells none. A query that failed tells none, whatever it wrote.
pub proof fn law_told_version_wins(
    pm: Pm,
    out: Option<Output>,
    absent: Option<String>,
    present: Option<String>,
    installed: bool,
)
    requires
        call_ensures(pkg_version, (pm, &out, false), absent),
        call_ensures(pkg_version, (pm, &out, true), present),
        call_ensures(is_installed, (pm, &out, false), installed),
    ensures
        absent matches Some(v) ==> (present matches Some(w) && w@ == v@),
        absent is None ==> (present matches Some(w) && w@ == "manual"@),
        installed <==> absent is Some,
        !(out matches Some(o) && o.code == Some(0i32)) ==> absent is None,
        out matches Some(o) ==> (o.code == Some(0i32) ==> opt_text(absent) == version_in(
            pm,
            lossy(o.stdout@),
        )),
{
}

/// A package counts as installed where its program is on disk, whatever the package manager says.
pub proof fn law_program_counts_as_installed(pm: Pm, out: Option<Output>, installed: bool)
    requires
        call_ensures(is_installed, (pm, &out, true), installed),
    ensures
        installed,
{
}

/// Two words with white space around and between them are the words of the whole.
proof fn lemma_two_words(
    a: Seq<char>,
    first: Seq<char>,
    gap: Seq<char>,
    second: Seq<char>,
    b: Seq<char>,
)
    requires
        all_white(a),
        all_ink(first) && first.len() > 0,
        all_white(gap) && gap.len() > 0,
        all_ink(second) && second.len() > 0,
        b.len() == 0 || is_white(b[0]),
    ensures
        words(a + first + gap + second + b) == seq![first, second] + words(b),
{
    law_words_of_both(a + first + gap + second, b);
    assert((a + first + gap).last() == gap.last());
    law_words_of_both(a + first + gap, second);
    law_words_of_both(a + first, gap);
    assert(a.len() > 0 ==> is_white(a.last()));
    law_words_of_both(a, first);
    law_one_word(a);
    law_one_word(first);
    law_one_word(gap);
    law_one_word(second);
    assert(words(a) + words(first) =~= seq![first]);
    assert(words(a) + words(first) + words(gap) =~= seq![first]);
    assert(seq![first] + seq![second] =~= seq![first, second]);
}

/// A line of a package list is read as it was written: the list with one more line records the second
/// word of that line as the version of its first, whatever follows, and all other packages as
/// before.
pub proof fn law_line_is_recorded(
    list: &str,
    longer: &str,
    a: Seq<char>,
    name: Seq<char>,
    gap: Seq<char>,
    version: Seq<char>,
    rest: Seq<char>,
    before: Installed,
    after: Installed,
)
    requires
        call_ensures(parse_installed, (list,), before),
        call_ensures(parse_installed, (longer,), after),
        list@.len() > 0 ==> list@.last() == '\n',
        all_white(a),
        all_ink(name) && name.len() > 0,
        all_white(gap) && gap.len() > 0,
        all_ink(version) && version.len() > 0,
        rest.len() == 0 || is_white(rest[0]),
        !(a + name + gap + version + rest).contains('\n'),
        (a + name + gap + version + rest).last() != '\r',
        longer@ == list@ + (a + name + gap + version + rest).push('\n'),
    ensures
        after@ == before@.insert(name, version),
{
    let line = a + name + gap + version + rest;
    let none = Seq::<char>::empty();
    lemma_two_words(a, name, gap, version, rest);
    assert(words(line)[0] == name && words(line)[1] == version);
    law_line_is_read_back(line, none);
    assert(line.push('\n') + none =~= line.push('\n'));
    law_line_is_read_back(none, none);
    law_lines_of_both(list@, line.push('\n'));
    let ls = lines(longer@);
    assert(ls =~= lines(list@).push(line));
    assert(ls.drop_last() =~= lines(list@));
}

/// A line without a version records nothing.
pub proof fn law_line_without_version_counts_for_nothing(
    list: &str,
    longer: &str,
    line: Seq<char>,
    before: Installed,
    after: Installed,
)
    requires
        call_ensures(parse_installed, (list,), before),
        call_ensures(parse_installed, (longer,), after),
        list@.len() > 0 ==> list@.last() == '\n',
        all_ink(line),
        longer@ == list@ + line.push('\n'),
    ensures
        after@ == before@,
{
    let none = Seq::<char>::empty();
    assert(!line.contains('\n')) by {
        assert forall|k: int| 0 <= k < line.len() implies line[k] != '\n' by {
            assert(!is_white(line[k]));
        }
    }
    assert(line.len() > 0 ==> !is_white(line[line.len() - 1]));
    law_line_is_read_back(line, none);
    assert(line.push('\n') + none =~= line.push('\n'));
    law_line_is_read_back(none, none);
    law_lines_of_both(list@, line.push('\n'));
    let ls = lines(longer@);
    assert(ls =~= lines(list@).push(line));
    assert(ls.drop_last() =~= lines(list@));
    law_one_word(line);
    assert(words(line).len() <= 1);
}

/// An empty list records nothing. What the listing command wrote is read as a list where it
/// succeeded, and counts for nothing where it failed.
pub proof fn law_list_of_the_command(
    out: Option<Output>,
    text: &str,
    r: Installed,
    read: Installed,
)
    requires
        call_ensures(installed_versions, (&out,), r),
        call_ensures(parse_installed, (text,), read),
    ensures
        text@.len() == 0 ==> read@ == Map::<Seq<char>, Seq<char>>::empty(),
        out matches Some(o) && o.code == Some(0i32) && text@ == lossy(o.stdout@) ==> r@ == read@,
        !(out matches Some(o) && o.code == Some(0i32)) ==> r@ == Map::<
            Seq<char>,
            Seq<char>,
        >::empty(),
{
    if text@.len() == 0 {
        law_line_is_read_back(text@, text@);
    }
}

/// Pacman answers with the name and then the version, which is the word that is taken, whatever
/// follows it; nothing is taken of an answer with one word or none.
pub proof fn law_version_in_the_answer_of_pacman(
    answer: &str,
    a: Seq<char>,
    name: Seq<char>,
    gap: Seq<char>,
    version: Seq<char>,
    more: Seq<char>,
    b: Seq<char>,
    r: Option<String>,
)
    requires
        call_ensures(parse_version, (Pm::Pacman, answer), r),
        more.len() == 0 || (is_white(more[0]) && !is_white(more.last())),
        all_white(a),
        all_white(b),
        all_ink(name) && name.len() > 0,
        all_white(gap) && gap.len() > 0,
        all_ink(version) && version.len() > 0,
    ensures
        answer@ == a + (name + gap + version + more) + b ==> (r matches Some(v) && v@ == version),
        answer@ == a + name + b ==> r is None,
        answer@ == a ==> r is None,
{
    let none = Seq::<char>::empty();
    let inner = name + gap + version + more;
    assert(inner[0] == name[0]);
    assert(inner.last() == (if more.len() > 0 {
        more.last()
    } else {
        version.last()
    }));
    assert(!is_white(version[version.len() - 1]));
    law_trim_undoes_padding(a, inner, b);
    law_trim_undoes_padding(a, name, b);
    law_trim_undoes_padding(a, none, none);
    assert(a + none + none =~= a);
    lemma_two_words(none, name, gap, version, more);
    assert(none + name + gap + version + more =~= inner);
    assert(words(inner)[1] == version);
    law_one_word(none);
    law_one_word(name);
}

/// The others answer with the version alone, which is taken without the white space around it. Of
/// rpm it is taken only where it starts with a digit; nothing is taken of a blank answer.
pub proof fn law_version_in_the_answer_of_others(
    pm: Pm,
    answer: &str,
    a: Seq<char>,
    version: Seq<char>,
    b: Seq<char>,
    r: Option<String>,
)
    requires
        call_ensures(parse_version, (pm, answer), r),
        pm != Pm::Pacman,
        all_white(a),
        all_white(b),
        ink_at_ends(version),
        answer@ == a + version + b,
    ensures
        version.len() == 0 ==> r is None,
        version.len() > 0 && pm == Pm::Apt ==> (r matches Some(v) && v@ == version),
        version.len() > 0 && pm == Pm::Dnf && '0' <= version[0] <= '9' ==> (r matches Some(v) && v@
            == version),
        version.len() > 0 && pm == Pm::Dnf && !('0' <= version[0] <= '9') ==> r is None,
{
    law_trim_undoes_padding(a, version, b);
}

/// A text is a package name exactly where it has one to 128 characters, all of them ASCII letters,
/// digits or one of six marks, and does not start with a dash.
pub proof fn law_package_names(p: &str, r: bool)
    requires
        call_ensures(valid_pkg_name, (p,), r),
    ensures
        r <==> {
            &&& 0 < p@.len() <= 128
            &&& p@[0] != '-'
            &&& forall|i: int|
                0 <= i < p@.len() ==> {
                    let c = #[trigger] p@[i];
                    ||| 'a' <= c <= 'z'
                    ||| 'A' <= c <= 'Z'
                    ||| '0' <= c <= '9'
                    ||| "._-+@:"@.contains(c)
                }
        },
{
    reveal_strlit("._-+@:");
    let marks = "._-+@:"@;
    assert(marks[0] == '.' && marks[1] == '_' && marks[2] == '-' && marks[3] == '+' && marks[4]
        == '@' && marks[5] == ':');
    assert forall|c: char|
        name_char(c) == ('a' <= c <= 'z' || 'A' <= c <= 'Z' || '0' <= c <= '9'
            || #[trigger] marks.contains(c)) by {
        if marks.contains(c) {
            let k = choose|k: int| 0 <= k < marks.len() && marks[k] == c;
            assert(0 <= k < 6);
        }
    }
    if forall|i: int| 0 <= i < p@.len() ==> name_char(#[trigger] p@[i]) {
        assert(is_ascii_chars(p@)) by {
            assert forall|i: int| 0 <= i < p@.len() implies 0 <= #[trigger] p@[i] < 128 by {
                assert(name_char(p@[i]));
            }
        }
        is_ascii_chars_encode_utf8(p@);
    }
    if r {
        assert forall|i: int| 0 <= i < p@.len() implies {
            let c = #[trigger] p@[i];
            ||| 'a' <= c <= 'z'
            ||| 'A' <= c <= 'Z'
            ||| '0' <= c <= '9'
            ||| "._-+@:"@.contains(c)
        } by {
            assert(name_char(p@[i]));
            assert(marks.contains(p@[i]) || !marks.contains(p@[i]));
        }
    }
    if forall|i: int|
        0 <= i < p@.len() ==> {
            let c = #[trigger] p@[i];
            ||| 'a' <= c <= 'z'
            ||| 'A' <= c <= 'Z'
            ||| '0' <= c <= '9'
            ||| "._-+@:"@.contains(c)
        } {
        assert forall|i: int| 0 <= i < p@.len() implies name_char(#[trigger] p@[i]) by {
            assert(marks.contains(p@[i]) || !marks.contains(p@[i]));
        }
    }
}

/// A text that is no package name leads to no command at all: launching, installing and removing it
/// are refused with one message, which ends in that text. A package name is never refused.
pub proof fn law_only_package_names_reach_a_command(
    pm: Pm,
    pkg: &str,
    valid: bool,
    launch: Result<CommandLine, String>,
    install: Result<CommandLine, String>,
    remove: Result<CommandLine, String>,
)
    requires
        call_ensures(valid_pkg_name, (pkg,), valid),
        call_ensures(launch_app, (pkg,), launch),
        call_ensures(install_pkg_by_name, (pm, pkg), install),
        call_ensures(uninstall_pkg, (pm, pkg), remove),
    ensures
        valid <==> launch is Ok,
        valid <==> install is Ok,
        valid <==> remove is Ok,
        launch matches Err(e) ==> e@ == "Nombre de paquete inválido: "@ + pkg@,
        install matches Err(e) ==> e@ == "Nombre de paquete inválido: "@ + pkg@,
        remove matches Err(e) ==> e@ == "Nombre de paquete inválido: "@ + pkg@,
        launch matches Ok(c) ==> c@.program == pkg@ && c@.args.len() == 0,
{
}

/// Removing is no installing: whatever the packages are, the command that removes one differs from
/// every command that installs one by name or from a file, and from the one that brings all up to
/// date. Each runs the package manager, works on exactly the package it was given, and none asks
/// back.
pub proof fn law_removing_is_not_installing(
    pm: Pm,
    pkg: &str,
    other: &str,
    path: &str,
    remove: CommandLine,
    install: CommandLine,
    file: CommandLine,
    upgrade: CommandLine,
)
    requires
        call_ensures(uninstall_pkg, (pm, pkg), Ok(remove)),
        call_ensures(install_pkg_by_name, (pm, other), Ok(install)),
        call_ensures(install_pkg_file, (pm, path), file),
        call_ensures(upgrade_all, (pm,), upgrade),
    ensures
        remove@ != install@ && remove@ != file@ && remove@ != upgrade@,
        install@ != upgrade@ && file@ != upgrade@,
        named(remove@.program) == Some(pm) && named(install@.program) == Some(pm) && named(
            file@.program,
        ) == Some(pm),
        remove@.args.last() == pkg@ && install@.args.last() == other@ && file@.args.last() == path@,
        forall|i: int|
            0 <= i < remove@.args.len() - 1 ==> #[trigger] remove@.args[i] != "install"@
                && remove@.args[i] != "-U"@ && remove@.args[i] != "-Sy"@ && remove@.args[i]
                != "-Syu"@ && remove@.args[i] != "upgrade"@,
        pm == Pm::Pacman ==> remove@.args[0] == "-Rs"@ && install@.args[0] == "-Sy"@
            && file@.args[0] == "-U"@ && upgrade@.args[0] == "-Syu"@,
        pm != Pm::Pacman ==> remove@.args[0] == "remove"@ && install@.args[0] == "install"@
            && file@.args[0] == "install"@,
        pm == Pm::Pacman ==> remove@.args[1] == "--noconfirm"@ && install@.args[1]
            == "--noconfirm"@ && file@.args[1] == "--noconfirm"@ && upgrade@.args[1]
            == "--noconfirm"@,
        pm != Pm::Pacman ==> remove@.args[1] == "-y"@ && install@.args[1] == "-y"@ && file@.args[1]
            == "-y"@,
        remove@.args.len() == 3,
{
    law_name_of_named(pm);
    reveal_strlit("install");
    reveal_strlit("remove");
    reveal_strlit("upgrade");
    reveal_strlit("-U");
    reveal_strlit("-Sy");
    reveal_strlit("-Syu");
    reveal_strlit("-Rs");
    reveal_strlit("-y");
    reveal_strlit("--noconfirm");
    reveal_strlit("sh");
    reveal_strlit("apt");
    assert("-Rs"@[1] == 'R' && "-Sy"@[1] == 'S');
    assert("-U"@[1] == 'U' && "-y"@[1] == 'y');
    assert("install"@[0] == 'i' && "upgrade"@[0] == 'u');
    assert("sh"@.len() == 2 && "apt"@.len() == 3);
    assert(remove@.args[0].len() != "-Syu"@.len());
    assert(remove@.args[0] != install@.args[0]);
    assert(remove@.args[0] != file@.args[0]);
    assert(pm != Pm::Apt ==> remove@.args[0] != upgrade@.args[0] && install@.args[0]
        != upgrade@.args[0] && file@.args[0] != upgrade@.args[0]);
    assert(pm == Pm::Apt ==> upgrade@.program != name_of(pm));
}

/// Bringing all up to date fetches the newest lists first and then upgrades, without asking back.
pub proof fn law_upgrade_refreshes_first(pm: Pm, upgrade: CommandLine)
    requires
        call_ensures(upgrade_all, (pm,), upgrade),
    ensures
        pm == Pm::Pacman ==> upgrade@ == command("pacman"@, seq!["-Syu"@, "--noconfirm"@]),
        pm == Pm::Dnf ==> upgrade@.program == "dnf"@ && upgrade@.args == seq![
            "upgrade"@,
            "-y"@,
            "--refresh"@,
        ],
        pm == Pm::Apt ==> upgrade@.program == "sh"@ && upgrade@.args == seq![
            "-c"@,
            "apt update && apt upgrade -y"@,
        ],
{
}

/// Installing by name takes the newest list of packages where the package manager has an option for
/// it; installing a file may replace what stands in its way, or a newer version.
pub proof fn law_options_of_installing(
    pm: Pm,
    pkg: &str,
    path: &str,
    install: CommandLine,
    file: CommandLine,
)
    requires
        call_ensures(install_pkg_by_name, (pm, pkg), Ok(install)),
        call_ensures(install_pkg_file, (pm, path), file),
    ensures
        pm == Pm::Dnf ==> install@.args.len() == 4 && install@.args[2] == "--refresh"@,
        pm != Pm::Dnf ==> install@.args.len() == 3,
        pm == Pm::Dnf ==> file@.args.len() == 4 && file@.args[2] == "--allowerasing"@,
        pm == Pm::Apt ==> file@.args.len() == 4 && file@.args[2] == "--allow-downgrades"@,
        pm == Pm::Pacman ==> file@.args.len() == 3,
{
}

/// The query for one package asks the same program as the one for all, and asks of the package that
/// it was given. Both ask for the version in one form, and the list puts the name before it and ends
/// the line after it.
pub proof fn law_queries_agree(pm: Pm, pkg: &str, all: CommandLine, one: CommandLine)
    requires
        call_ensures(installed_query, (pm,), all),
        call_ensures(version_query, (pm, pkg), one),
    ensures
        all@.program == one@.program,
        all@.program == (match pm {
            Pm::Pacman => "pacman"@,
            Pm::Dnf => "rpm"@,
            Pm::Apt => "dpkg-query"@,
        }),
        one@.args.last() == pkg@,
        pm == Pm::Pacman ==> all@.args == seq!["-Q"@] && one@.args == all@.args.push(pkg@),
        pm == Pm::Dnf ==> all@.args.len() == 3 && one@.args.len() == 4 && all@.args[0] == "-qa"@
            && one@.args[0] == "-q"@ && all@.args[1] == "--qf"@ && one@.args[1] == "--qf"@
            && one@.args[2] == "%{VERSION}-%{RELEASE}"@ && all@.args[2] == "%{NAME} "@
            + one@.args[2] + "\n"@,
        pm == Pm::Apt ==> all@.args.len() == 2 && one@.args.len() == 3 && all@.args[0] == "-W"@
            && one@.args[0] == "-W"@ && one@.args[1] == "-f="@ + "${Version}"@ && all@.args[1]
            == "-f="@ + "${Package} "@ + "${Version}"@ + "\n"@,
{
    reveal_strlit("%{NAME} %{VERSION}-%{RELEASE}\n");
    reveal_strlit("%{VERSION}-%{RELEASE}");
    reveal_strlit("%{NAME} ");
    reveal_strlit("\n");
    reveal_strlit("-f=${Package} ${Version}\n");
    reveal_strlit("-f=${Version}");
    reveal_strlit("-f=");
    reveal_strlit("${Package} ");
    reveal_strlit("${Version}");
    if pm == Pm::Pacman {
        assert(one@.args =~= all@.args.push(pkg@));
    }
    assert("%{NAME} %{VERSION}-%{RELEASE}\n"@ =~= "%{NAME} "@ + "%{VERSION}-%{RELEASE}"@ + "\n"@);
    assert("-f=${Version}"@ =~= "-f="@ + "${Version}"@);
    assert("-f=${Package} ${Version}\n"@ =~= "-f="@ + "${Package} "@ + "${Version}"@ + "\n"@);
}

/// The program of a package is looked for in the three directories of programs, under the name of the
/// package.
pub proof fn law_places_of_the_program(pkg: &str, r: Vec<String>)
    requires
        call_ensures(program_paths, (pkg,), r),
    ensures
        r@.len() == 3,
        r@[2]@ == "/bin/"@ + pkg@,
        r@[0]@ == "/usr"@ + r@[2]@,
        r@[1]@ == "/usr/local"@ + r@[2]@,
{
    let ps = texts(r@);
    assert(ps.len() == 3);
    assert(r@[0]@ == ps[0] && r@[1]@ == ps[1] && r@[2]@ == ps[2]);
    reveal_strlit("/");
    reveal_strlit("/bin");
    reveal_strlit("/bin/");
    reveal_strlit("/usr");
    reveal_strlit("/usr/bin");
    reveal_strlit("/usr/local");
    reveal_strlit("/usr/local/bin");
    assert("/bin"@ + "/"@ + pkg@ =~= "/bin/"@ + pkg@);
    assert("/usr/bin"@ + "/"@ + pkg@ =~= "/usr"@ + ("/bin/"@ + pkg@));
    assert("/usr/local/bin"@ + "/"@ + pkg@ =~= "/usr/local"@ + ("/bin/"@ + pkg@));
}

/// What is told of a failure names what failed, and ends in the cause; what is told of a removal is
/// `ok` or the failure itself.
pub proof fn law_failures_name_what_failed(
    what: &str,
    cause: &str,
    run: Result<String, String>,
    launch: String,
    missing: String,
    told: Result<String, String>,
)
    requires
        call_ensures(launch_failure, (what, cause), launch),
        call_ensures(missing_file, (what, cause), missing),
        call_ensures(uninstalled, (run,), told),
    ensures
        launch@ == "No se pudo lanzar "@ + (what@ + (": "@ + cause@)),
        missing@ == "Archivo no existe: "@ + (what@ + (" ("@ + (cause@ + ")"@))),
        run is Ok <==> told is Ok,
        told matches Ok(t) ==> t@ == "ok"@,
        told matches Err(e) ==> run matches Err(why) && e@ == why@,
{
    assert(launch@ =~= "No se pudo lanzar "@ + (what@ + (": "@ + cause@)));
    assert(missing@ =~= "Archivo no existe: "@ + (what@ + (" ("@ + (cause@ + ")"@))));
}

} // verus!

//! Package managers: which one a system has, and what it says of the packages.

use vstd::prelude::*;
use vstd::string::*;
use vstd::utf8::*;
use crate::json::{lemma_view, member_trees, trees, Json, JsonV};
use crate::text::{
    after_prefix,
    all_ink,
    is_white,
    law_line_is_read_back,
    law_lines_of_both,
    law_lower_case_of_ascii,
    law_one_word,
    law_strip_undoes_padding,
    law_words_of_both,
    lines,
    lowercase,
    plain_case,
    same_text,
    split_lines,
    split_words,
    strip_leading,
    strip_trailing,
    texts,
    to_lowercase,
    trim_char,
    words,
};

verus! {

/// A package manager.
#[derive(Clone, Copy, Debug, PartialEq, Eq, Structural)]
pub enum Pm {
    Pacman,
    Dnf,
    Apt,
}

/// The package manager that a lower-case name chooses.
pub open spec fn named(name: Seq<char>) -> Option<Pm> {
    if name == "pacman"@ {
        Some(Pm::Pacman)
    } else if name == "dnf"@ {
        Some(Pm::Dnf)
    } else if name == "apt"@ {
        Some(Pm::Apt)
    } else {
        None
    }
}

/// `w` names a distribution of the family that uses `pm`.
pub open spec fn in_family(w: Seq<char>, pm: Pm) -> bool {
    match pm {
        Pm::Pacman => w == "arch"@ || w == "cachyos"@ || w == "manjaro"@ || w == "endeavouros"@ || w
            == "garuda"@ || w == "artix"@,
        Pm::Dnf => w == "fedora"@ || w == "rhel"@ || w == "centos"@ || w == "rocky"@ || w
            == "almalinux"@ || w == "opensuse"@ || w == "suse"@,
        Pm::Apt => w == "debian"@ || w == "ubuntu"@ || w == "linuxmint"@ || w == "pop"@ || w
            == "kali"@ || w == "raspbian"@,
    }
}

/// Some word of `names` belongs to the family that uses `pm`.
pub open spec fn mentions_family(names: Seq<char>, pm: Pm) -> bool {
    exists|i: int| 0 <= i < words(names).len() && in_family(#[trigger] words(names)[i], pm)
}

/// The package manager of the first family that `names` mentions, Arch before Fedora before Debian.
pub open spec fn family(names: Seq<char>) -> Option<Pm> {
    if mentions_family(names, Pm::Pacman) {
        Some(Pm::Pacman)
    } else if mentions_family(names, Pm::Dnf) {
        Some(Pm::Dnf)
    } else if mentions_family(names, Pm::Apt) {
        Some(Pm::Apt)
    } else {
        None
    }
}

/// What follows `key` in the first of the lines that starts with it.
pub open spec fn field(ls: Seq<Seq<char>>, key: Seq<char>) -> Option<Seq<char>>
    decreases ls.len(),
{
    if ls.len() == 0 {
        None
    } else if key.is_prefix_of(ls[0]) {
        Some(ls[0].skip(key.len() as int))
    } else {
        field(ls.drop_first(), key)
    }
}

/// The value of `key` in an os-release file, without the quotes around it; empty where it lacks.
pub open spec fn os_value(release: Seq<char>, key: Seq<char>) -> Seq<char> {
    match field(lines(release), key) {
        Some(v) => strip_trailing(strip_leading(v, '"'), '"'),
        None => Seq::empty(),
    }
}

/// The names by which an os-release file calls its system and those it is like.
pub open spec fn os_names(release: Seq<char>) -> Seq<char> {
    lowercase(os_value(release, "ID="@)) + " "@ + lowercase(os_value(release, "ID_LIKE="@))
}

/// Which programs are installed under `/usr/bin` or `/bin`.
#[derive(Clone, Copy, Debug)]
pub struct Binaries {
    pub pacman: bool,
    pub dnf: bool,
    pub rpm: bool,
    pub dpkg: bool,
    pub apt: bool,
}

/// The files by which an installed program is recognised.
pub fn binary_paths(bin: &str) -> (r: Vec<String>)
    ensures
        texts(r@) == seq!["/usr/bin/"@ + bin@, "/bin/"@ + bin@],
{
    let mut r: Vec<String> = Vec::new();
    r.push("/usr/bin/".to_owned().concat(bin));
    r.push("/bin/".to_owned().concat(bin));
    r
}

/// The package manager that the installed programs suggest; pacman where there is no hint.
pub open spec fn of_binaries(has: Binaries) -> Pm {
    if has.pacman {
        Pm::Pacman
    } else if has.dnf || has.rpm {
        Pm::Dnf
    } else if has.dpkg || has.apt {
        Pm::Apt
    } else {
        Pm::Pacman
    }
}

/// The package manager of a system: the one asked for by name, else that of the distribution's
/// family, else what the installed programs suggest.
pub open spec fn detected(
    asked: Option<Seq<char>>,
    release: Option<Seq<char>>,
    has: Binaries,
) -> Pm {
    let by_name = match asked {
        Some(name) => named(lowercase(name)),
        None => None,
    };
    let by_family = match release {
        Some(text) => family(os_names(text)),
        None => None,
    };
    match by_name {
        Some(pm) => pm,
        None => match by_family {
            Some(pm) => pm,
            None => of_binaries(has),
        },
    }
}

/// The package manager that a lower-case name chooses.
pub fn pm_named(name: &str) -> (r: Option<Pm>)
    ensures
        r == named(name@),
{
    if same_text(name, "pacman") {
        Some(Pm::Pacman)
    } else if same_text(name, "dnf") {
        Some(Pm::Dnf)
    } else if same_text(name, "apt") {
        Some(Pm::Apt)
    } else {
        None
    }
}

/// Whether `w` names a distribution of the family that uses `pm`.
fn family_word(w: &str, pm: Pm) -> (r: bool)
    ensures
        r == in_family(w@, pm),
{
    match pm {
        Pm::Pacman => same_text(w, "arch") || same_text(w, "cachyos") || same_text(w, "manjaro")
            || same_text(w, "endeavouros") || same_text(w, "garuda") || same_text(w, "artix"),
        Pm::Dnf => same_text(w, "fedora") || same_text(w, "rhel") || same_text(w, "centos")
            || same_text(w, "rocky") || same_text(w, "almalinux") || same_text(w, "opensuse")
            || same_text(w, "suse"),
        Pm::Apt => same_text(w, "debian") || same_text(w, "ubuntu") || same_text(w, "linuxmint")
            || same_text(w, "pop") || same_text(w, "kali") || same_text(w, "raspbian"),
    }
}

fn any_of_family(ws: &Vec<String>, pm: Pm) -> (r: bool)
    ensures
        r == exists|i: int| 0 <= i < ws@.len() && in_family(#[trigger] texts(ws@)[i], pm),
{
    let mut i: usize = 0;
    while i < ws.len()
        invariant
            i <= ws@.len(),
            forall|k: int| 0 <= k < i ==> !in_family(#[trigger] texts(ws@)[k], pm),
        decreases ws@.len() - i,
    {
        if family_word(ws[i].as_str(), pm) {
            assert(in_family(texts(ws@)[i as int], pm));
            return true;
        }
        i = i + 1;
    }
    false
}

/// The package manager of the first family that `names` mentions.
pub fn distro_family(names: &str) -> (r: Option<Pm>)
    ensures
        r == family(names@),
{
    let ws = split_words(names);
    if any_of_family(&ws, Pm::Pacman) {
        Some(Pm::Pacman)
    } else if any_of_family(&ws, Pm::Dnf) {
        Some(Pm::Dnf)
    } else if any_of_family(&ws, Pm::Apt) {
        Some(Pm::Apt)
    } else {
        None
    }
}

proof fn lemma_field_skip(ls: Seq<Seq<char>>, key: Seq<char>, i: int)
    requires
        0 <= i <= ls.len(),
        forall|k: int| 0 <= k < i ==> !key.is_prefix_of(#[trigger] ls[k]),
    ensures
        field(ls, key) == field(ls.skip(i), key),
    decreases i,
{
    if i > 0 {
        lemma_field_skip(ls.drop_first(), key, i - 1);
        assert(ls.drop_first().skip(i - 1) =~= ls.skip(i));
    } else {
        assert(ls.skip(0) =~= ls);
    }
}

/// The value of `key` in an os-release file, without the quotes around it.
pub fn os_release_value(release: &str, key: &str) -> (r: String)
    ensures
        r@ == os_value(release@, key@),
{
    let ls = split_lines(release);
    let ghost seen = texts(ls@);
    let mut i: usize = 0;
    while i < ls.len()
        invariant
            i <= ls@.len(),
            seen == texts(ls@),
            seen == lines(release@),
            forall|k: int| 0 <= k < i ==> !key@.is_prefix_of(#[trigger] seen[k]),
        decreases ls@.len() - i,
    {
        let found = after_prefix(ls[i].as_str(), key);
        assert(seen[i as int] == ls@[i as int]@);
        if let Some(v) = found {
            proof {
                lemma_field_skip(seen, key@, i as int);
                assert(seen.skip(i as int)[0] == seen[i as int]);
            }
            return trim_char(v.as_str(), '"');
        }
        i = i + 1;
    }
    proof {
        lemma_field_skip(seen, key@, i as int);
    }
    String::new()
}

/// The names by which an os-release file calls its system and those it is like.
pub fn os_release_names(release: &str) -> (r: String)
    ensures
        r@ == os_names(release@),
        plain_case(os_value(release@, "ID="@)),
        plain_case(os_value(release@, "ID_LIKE="@)),
{
    let id = os_release_value(release, "ID=");
    let like = os_release_value(release, "ID_LIKE=");
    to_lowercase(id.as_str()).concat(" ").concat(to_lowercase(like.as_str()).as_str())
}

/// The package manager that the installed programs suggest.
pub fn pm_of_binaries(has: Binaries) -> (r: Pm)
    ensures
        r == of_binaries(has),
{
    if has.pacman {
        Pm::Pacman
    } else if has.dnf || has.rpm {
        Pm::Dnf
    } else if has.dpkg || has.apt {
        Pm::Apt
    } else {
        Pm::Pacman
    }
}

/// The texts that optional string slices hold.
pub open spec fn opt_str(o: Option<&str>) -> Option<Seq<char>> {
    match o {
        Some(s) => Some(s@),
        None => None,
    }
}

/// The package manager of a system, from the name that was asked for, the os-release file and the
/// installed programs.
pub fn detect_pm(asked: Option<&str>, release: Option<&str>, has: Binaries) -> (r: Pm)
    ensures
        r == detected(opt_str(asked), opt_str(release), has),
        asked matches Some(name) ==> plain_case(name@),
        asked is None && release is Some ==> plain_case(os_value(release->0@, "ID="@))
            && plain_case(os_value(release->0@, "ID_LIKE="@)),
{
    if let Some(name) = asked {
        if let Some(pm) = pm_named(to_lowercase(name).as_str()) {
            return pm;
        }
    }
    if let Some(text) = release {
        if let Some(pm) = distro_family(os_release_names(text).as_str()) {
            return pm;
        }
    }
    pm_of_binaries(has)
}

/// A package manager that is asked for by its name is the one that is used, whatever the
/// distribution and the installed programs are.
pub proof fn law_asked_name_wins(
    name: Seq<char>,
    release: Option<Seq<char>>,
    has: Binaries,
)
    ensures
        named(lowercase(name)) matches Some(pm) ==> detected(Some(name), release, has) == pm,
{
}

/// Where the distribution tells its family, the installed programs do not matter: tools of another
/// family that are installed beside cannot mislead the detection.
pub proof fn law_release_over_binaries(
    asked: Option<Seq<char>>,
    release: Seq<char>,
    has: Binaries,
    other: Binaries,
)
    ensures
        family(os_names(release)) is Some ==> detected(asked, Some(release), has) == detected(
            asked,
            Some(release),
            other,
        ),
{
}

/// Where nothing but the installed programs can tell, pacman counts over every other one, and is
/// taken where no program tells anything.
pub proof fn law_pacman_counts_over_other_programs(found: Binaries)
    ensures
        found.pacman ==> detected(None, None, found) == Pm::Pacman,
        !found.dnf && !found.rpm && !found.dpkg && !found.apt ==> detected(None, None, found) == Pm::Pacman,
{
}

/// The name of a package manager.
pub open spec fn name_of(pm: Pm) -> Seq<char> {
    match pm {
        Pm::Pacman => "pacman"@,
        Pm::Dnf => "dnf"@,
        Pm::Apt => "apt"@,
    }
}

/// The extension of the package files that a package manager installs.
pub open spec fn extension_of(pm: Pm) -> Seq<char> {
    match pm {
        Pm::Pacman => ".pkg.tar.zst"@,
        Pm::Dnf => ".rpm"@,
        Pm::Apt => ".deb"@,
    }
}

/// Asking for a package manager by its own name gives that package manager.
pub proof fn law_name_of_named(pm: Pm)
    ensures
        named(name_of(pm)) == Some(pm),
{
    reveal_strlit("pacman");
    reveal_strlit("dnf");
    reveal_strlit("apt");
    assert("pacman"@.len() == 6 && "dnf"@.len() == 3 && "apt"@.len() == 3);
    assert("dnf"@[0] == 'd' && "apt"@[0] == 'a');
}

/// What the window is told of the package manager: its name and the package files it takes.
pub fn pm_info(pm: Pm) -> (r: Json)
    ensures
        r@ == JsonV::Object(
            seq![
                ("pm"@, JsonV::Str(name_of(pm))),
                ("exts"@, JsonV::Array(seq![JsonV::Str(extension_of(pm))])),
            ],
        ),
{
    let name: &str = match pm {
        Pm::Pacman => "pacman",
        Pm::Dnf => "dnf",
        Pm::Apt => "apt",
    };
    let ext: &str = match pm {
        Pm::Pacman => ".pkg.tar.zst",
        Pm::Dnf => ".rpm",
        Pm::Apt => ".deb",
    };
    let mut exts: Vec<Json> = Vec::new();
    exts.push(Json::Str(ext.to_owned()));
    let list = Json::Array(exts);
    proof {
        lemma_view(list);
        assert(trees(exts@) =~= seq![JsonV::Str(extension_of(pm))]);
    }
    let mut members: Vec<(String, Json)> = Vec::new();
    members.push(("pm".to_owned(), Json::Str(name.to_owned())));
    members.push(("exts".to_owned(), list));
    let r = Json::Object(members);
    proof {
        lemma_view(r);
        assert(member_trees(members@) =~= seq![
            ("pm"@, JsonV::Str(name_of(pm))),
            ("exts"@, JsonV::Array(seq![JsonV::Str(extension_of(pm))])),
        ]);
    }
    r
}

/// A package manager is asked for by its own name, and by no other text.
pub proof fn law_three_names(name: Seq<char>)
    ensures
        named(name) == Some(Pm::Pacman) <==> name == "pacman"@,
        named(name) == Some(Pm::Dnf) <==> name == "dnf"@,
        named(name) == Some(Pm::Apt) <==> name == "apt"@,
        named(name) matches Some(pm) ==> name_of(pm) == name,
{
    law_name_of_named(Pm::Pacman);
    law_name_of_named(Pm::Dnf);
    law_name_of_named(Pm::Apt);
}

/// The name that is asked for counts in capital and small letters alike, over the distribution and
/// the installed programs; a name of nothing known counts as none.
pub proof fn law_asked_name_in_any_case(
    name: &str,
    release: Option<&str>,
    has: Binaries,
    r: Pm,
    unasked: Pm,
)
    requires
        call_ensures(detect_pm, (Some(name), release, has), r),
        call_ensures(detect_pm, (None, release, has), unasked),
        is_ascii_chars(name@),
    ensures
        ({
            let small = name@.map_values(|c: char| crate::text::ascii_lower(c));
            &&& small == "pacman"@ ==> r == Pm::Pacman
            &&& small == "dnf"@ ==> r == Pm::Dnf
            &&& small == "apt"@ ==> r == Pm::Apt
            &&& small != "pacman"@ && small != "dnf"@ && small != "apt"@ ==> r == unasked
        }),
{
    law_three_names(lowercase(name@));
}

/// Which distributions belong to which family, and that no distribution belongs to two.
pub proof fn law_families(w: Seq<char>, pm: Pm, other: Pm)
    ensures
        in_family(w, Pm::Pacman) <==> seq![
            "arch"@,
            "artix"@,
            "cachyos"@,
            "endeavouros"@,
            "garuda"@,
            "manjaro"@,
        ].contains(w),
        in_family(w, Pm::Dnf) <==> seq![
            "almalinux"@,
            "centos"@,
            "fedora"@,
            "opensuse"@,
            "rhel"@,
            "rocky"@,
            "suse"@,
        ].contains(w),
        in_family(w, Pm::Apt) <==> seq![
            "debian"@,
            "kali"@,
            "linuxmint"@,
            "pop"@,
            "raspbian"@,
            "ubuntu"@,
        ].contains(w),
        in_family(w, pm) && in_family(w, other) ==> pm == other,
{
    let arch = seq!["arch"@, "artix"@, "cachyos"@, "endeavouros"@, "garuda"@, "manjaro"@];
    let fedora = seq![
        "almalinux"@,
        "centos"@,
        "fedora"@,
        "opensuse"@,
        "rhel"@,
        "rocky"@,
        "suse"@,
    ];
    let debian = seq!["debian"@, "kali"@, "linuxmint"@, "pop"@, "raspbian"@, "ubuntu"@];
    assert(arch[0] == "arch"@ && arch[1] == "artix"@ && arch[2] == "cachyos"@ && arch[3]
        == "endeavouros"@ && arch[4] == "garuda"@ && arch[5] == "manjaro"@);
    assert(fedora[0] == "almalinux"@ && fedora[1] == "centos"@ && fedora[2] == "fedora"@
        && fedora[3] == "opensuse"@ && fedora[4] == "rhel"@ && fedora[5] == "rocky"@ && fedora[6]
        == "suse"@);
    assert(debian[0] == "debian"@ && debian[1] == "kali"@ && debian[2] == "linuxmint"@ && debian[3]
        == "pop"@ && debian[4] == "raspbian"@ && debian[5] == "ubuntu"@);
    assert(in_family(w, Pm::Pacman) ==> arch.contains(w));
    assert(in_family(w, Pm::Dnf) ==> fedora.contains(w));
    assert(in_family(w, Pm::Apt) ==> debian.contains(w));
    if in_family(w, pm) && in_family(w, other) {
        lemma_family_letters(w);
    }
}

/// The length of a name and its first letter tell the family.
proof fn lemma_family_letters(w: Seq<char>)
    ensures
        in_family(w, Pm::Pacman) ==> !in_family(w, Pm::Dnf) && !in_family(w, Pm::Apt),
        in_family(w, Pm::Dnf) ==> !in_family(w, Pm::Apt),
{
    reveal_strlit("arch");
    reveal_strlit("artix");
    reveal_strlit("cachyos");
    reveal_strlit("endeavouros");
    reveal_strlit("garuda");
    reveal_strlit("manjaro");
    reveal_strlit("almalinux");
    reveal_strlit("centos");
    reveal_strlit("fedora");
    reveal_strlit("opensuse");
    reveal_strlit("rhel");
    reveal_strlit("rocky");
    reveal_strlit("suse");
    reveal_strlit("debian");
    reveal_strlit("kali");
    reveal_strlit("linuxmint");
    reveal_strlit("pop");
    reveal_strlit("raspbian");
    reveal_strlit("ubuntu");
    assert(in_family(w, Pm::Pacman) ==> (w.len() == 4 && w[0] == 'a') || (w.len() == 5 && w[0]
        == 'a') || w.len() == 7 || w.len() == 11 || (w.len() == 6 && w[0] == 'g'));
    assert(in_family(w, Pm::Dnf) ==> (w.len() == 4 && (w[0] == 'r' || w[0] == 's')) || (w.len() == 5
        && w[0] == 'r') || (w.len() == 6 && (w[0] == 'f' || w[0] == 'c')) || (w.len() == 8 && w[0]
        == 'o') || (w.len() == 9 && w[0] == 'a'));
    assert(in_family(w, Pm::Apt) ==> (w.len() == 4 && w[0] == 'k') || w.len() == 3 || (w.len() == 6
        && (w[0] == 'd' || w[0] == 'u')) || (w.len() == 8 && w[0] == 'r') || (w.len() == 9 && w[0]
        == 'l'));
}

/// A distribution of the Arch family is told by any of its words, whatever the others are. One of the
/// Fedora family is told by any word where no word is of the Arch family, and one of the Debian
/// family where no word is of another. Without such a word no family is told.
pub proof fn law_any_word_tells_the_family(
    names: &str,
    a: Seq<char>,
    w: Seq<char>,
    b: Seq<char>,
    r: Option<Pm>,
)
    requires
        call_ensures(distro_family, (names,), r),
        names@ == a + w + b,
        a.len() == 0 || is_white(a.last()),
        b.len() == 0 || is_white(b[0]),
        w.len() > 0 && all_ink(w),
    ensures
        in_family(w, Pm::Pacman) ==> r == Some(Pm::Pacman),
        in_family(w, Pm::Dnf) ==> r == Some(Pm::Dnf) || (r == Some(Pm::Pacman) && exists|i: int|
            0 <= i < words(names@).len() && in_family(#[trigger] words(names@)[i], Pm::Pacman)),
        in_family(w, Pm::Apt) ==> r is Some,
        r == Some(Pm::Apt) ==> forall|i: int|
            0 <= i < words(names@).len() ==> !in_family(#[trigger] words(names@)[i], Pm::Dnf)
                && !in_family(words(names@)[i], Pm::Pacman),
        r matches Some(pm) ==> exists|i: int|
            0 <= i < words(names@).len() && in_family(#[trigger] words(names@)[i], pm),
{
    law_words_of_both(a + w, b);
    law_words_of_both(a, w);
    law_one_word(w);
    let n = words(a).len() as int;
    assert((words(a) + seq![w])[n] == w);
    assert(words(names@)[n] == w);
}

/// The value of a key is what follows the key on the first line that starts with it, without any
/// quotes around it; without such a line it is empty.
pub proof fn law_value_of_a_key(
    release: &str,
    key: &str,
    a: Seq<char>,
    opening: Seq<char>,
    v: Seq<char>,
    closing: Seq<char>,
    b: Seq<char>,
    r: String,
)
    requires
        call_ensures(os_release_value, (release, key), r),
        key@.len() > 0 && !key@.contains('\n') && key@.last() != '\r',
        a.len() > 0 ==> a.last() == '\n',
        forall|i: int| 0 <= i < lines(a).len() ==> !key@.is_prefix_of(#[trigger] lines(a)[i]),
        forall|i: int| 0 <= i < opening.len() ==> #[trigger] opening[i] == '"',
        forall|i: int| 0 <= i < closing.len() ==> #[trigger] closing[i] == '"',
        v.len() > 0 ==> v[0] != '"' && v.last() != '"' && v.last() != '\r',
        !v.contains('\n'),
    ensures
        release@ == a + ((key@ + (opening + v + closing)).push('\n') + b) ==> r@ == v,
        release@ == a ==> r@.len() == 0,
{
    lemma_value_of_a_key(key@, a, opening, v, closing, b);
}

proof fn lemma_value_of_a_key(
    key: Seq<char>,
    a: Seq<char>,
    opening: Seq<char>,
    v: Seq<char>,
    closing: Seq<char>,
    b: Seq<char>,
)
    requires
        key.len() > 0 && !key.contains('\n') && key.last() != '\r',
        a.len() > 0 ==> a.last() == '\n',
        forall|i: int| 0 <= i < lines(a).len() ==> !key.is_prefix_of(#[trigger] lines(a)[i]),
        forall|i: int| 0 <= i < opening.len() ==> #[trigger] opening[i] == '"',
        forall|i: int| 0 <= i < closing.len() ==> #[trigger] closing[i] == '"',
        v.len() > 0 ==> v[0] != '"' && v.last() != '"' && v.last() != '\r',
        !v.contains('\n'),
    ensures
        os_value(a + ((key + (opening + v + closing)).push('\n') + b), key) == v,
        os_value(a, key).len() == 0,
{
    let quoted = opening + v + closing;
    let line = key + quoted;
    let rest = line.push('\n') + b;
    assert(!line.contains('\n')) by {
        assert forall|k: int| 0 <= k < line.len() implies line[k] != '\n' by {
            if k < key.len() {
                assert(key.contains(key[k]));
            } else if k < key.len() + opening.len() {
                assert(line[k] == opening[k - key.len()]);
            } else if k < key.len() + opening.len() + v.len() {
                assert(v.contains(v[k - key.len() - opening.len()]));
                assert(line[k] == v[k - key.len() - opening.len()]);
            } else {
                assert(line[k] == closing[k - key.len() - opening.len() - v.len()]);
            }
        }
    }
    assert(line.last() != '\r') by {
        if closing.len() > 0 {
            assert(line.last() == closing.last());
        } else if v.len() > 0 {
            assert(line.last() == v.last());
        } else if opening.len() > 0 {
            assert(line.last() == opening.last());
        } else {
            assert(line.last() == key.last());
        }
    }
    law_line_is_read_back(line, b);
    law_lines_of_both(a, rest);
    let ls = lines(a + rest);
    let n = lines(a).len() as int;
    assert forall|k: int| 0 <= k < n implies !key.is_prefix_of(#[trigger] ls[k]) by {
        assert(ls[k] == lines(a)[k]);
    }
    lemma_field_skip(ls, key, n);
    assert(ls.skip(n)[0] == line);
    assert(key.is_prefix_of(line));
    assert(line.skip(key.len() as int) =~= quoted);
    law_strip_undoes_padding(opening, v, closing, '"');
    lemma_field_skip(lines(a), key, n);
    assert(lines(a).skip(n).len() == 0);
}

/// Both the system's own name and those of the systems that it is like count.
pub proof fn law_both_names_count(release: &str, r: String)
    requires
        call_ensures(os_release_names, (release,), r),
    ensures
        words(r@) == words(lowercase(os_value(release@, "ID="@))) + words(
            lowercase(os_value(release@, "ID_LIKE="@)),
        ),
{
    lemma_both_names_count(release@);
}

proof fn lemma_both_names_count(release: Seq<char>)
    ensures
        words(os_names(release)) == words(lowercase(os_value(release, "ID="@))) + words(
            lowercase(os_value(release, "ID_LIKE="@)),
        ),
{
    let id = lowercase(os_value(release, "ID="@));
    let like = lowercase(os_value(release, "ID_LIKE="@));
    reveal_strlit(" ");
    law_words_of_both(id + " "@, like);
    law_words_of_both(id, " "@);
    law_one_word(" "@);
    assert(words(id) + words(" "@) =~= words(id));
}

/// The distribution that the release file names decides, whatever programs are installed: a file
/// whose `ID` is a name of one family, and which is like no other system, gives the package manager
/// of that family.
pub proof fn law_distribution_decides(
    release: &str,
    has: Binaries,
    a: Seq<char>,
    w: Seq<char>,
    b: Seq<char>,
    pm: Pm,
    r: Pm,
)
    requires
        call_ensures(detect_pm, (None, Some(release), has), r),
        a.len() > 0 ==> a.last() == '\n',
        forall|i: int| 0 <= i < lines(a).len() ==> !"ID="@.is_prefix_of(#[trigger] lines(a)[i]),
        w.len() > 0,
        forall|i: int| 0 <= i < w.len() ==> 'a' <= #[trigger] w[i] <= 'z',
        release@ == a + (("ID="@ + w).push('\n') + b),
        forall|i: int|
            0 <= i < lines(release@).len() ==> !"ID_LIKE="@.is_prefix_of(
                #[trigger] lines(release@)[i],
            ),
        in_family(w, pm),
    ensures
        r == pm,
{
    let none = Seq::<char>::empty();
    reveal_strlit("ID=");
    assert(!w.contains('\n'));
    assert(none + w + none =~= w);
    lemma_value_of_a_key("ID="@, a, none, w, none, b);
    lemma_both_names_count(release@);
    let like = os_value(release@, "ID_LIKE="@);
    lemma_field_skip(lines(release@), "ID_LIKE="@, lines(release@).len() as int);
    assert(like =~= none);
    assert(lowercase(like) =~= none);
    law_lower_case_of_ascii(w, 0);
    assert(all_ink(w));
    law_one_word(w);
    law_one_word(none);
    let ws = words(os_names(release@));
    assert(ws =~= seq![w]);
    assert(ws[0] == w);
    law_families(w, pm, Pm::Pacman);
    law_families(w, pm, Pm::Dnf);
    law_families(w, pm, Pm::Apt);
}

/// The family that the names in the release file tell decides, whatever programs are installed; names
/// that tell none count as no file at all.
pub proof fn law_family_before_programs(
    release: &str,
    has: Binaries,
    told: String,
    names: &str,
    family_told: Option<Pm>,
    r: Pm,
    without: Pm,
)
    requires
        call_ensures(os_release_names, (release,), told),
        call_ensures(distro_family, (names,), family_told),
        names@ == told@,
        call_ensures(detect_pm, (None, Some(release), has), r),
        call_ensures(detect_pm, (None, None, has), without),
    ensures
        family_told matches Some(pm) ==> r == pm,
        family_told is None ==> r == without,
{
}

/// Where nothing but the installed programs can tell, pacman counts over the programs of Fedora, and
/// these count over those of Debian.
pub proof fn law_programs_in_order(found: Binaries, r: Pm)
    requires
        call_ensures(detect_pm, (None, None, found), r),
    ensures
        found.pacman ==> r == Pm::Pacman,
        !found.pacman && found.dnf ==> r == Pm::Dnf,
        !found.pacman && found.rpm ==> r == Pm::Dnf,
        !found.pacman && !found.dnf && !found.rpm && found.dpkg ==> r == Pm::Apt,
        !found.pacman && !found.dnf && !found.rpm && found.apt ==> r == Pm::Apt,
        !found.pacman && !found.dnf && !found.rpm && !found.dpkg && !found.apt ==> r == Pm::Pacman,
{
}

/// A program is looked for under both directories of programs, and under its own name.
pub proof fn law_places_of_a_program(bin: &str, r: Vec<String>)
    requires
        call_ensures(binary_paths, (bin,), r),
    ensures
        r@.len() == 2,
        r@[0]@ == "/usr"@ + r@[1]@,
        r@[1]@ == "/bin/"@ + bin@,
{
    let ps = texts(r@);
    assert(ps.len() == 2);
    assert(r@[0]@ == ps[0] && r@[1]@ == ps[1]);
    reveal_strlit("/usr");
    reveal_strlit("/bin/");
    reveal_strlit("/usr/bin/");
    assert("/usr/bin/"@ + bin@ =~= "/usr"@ + ("/bin/"@ + bin@));
}

/// What is told of a package manager names it by the name by which it is asked for, and tells one
/// kind of package file, which no other package manager takes.
pub proof fn law_told_of_a_package_manager(pm: Pm, other: Pm, r: Json, o: Json)
    requires
        call_ensures(pm_info, (pm,), r),
        call_ensures(pm_info, (other,), o),
    ensures
        crate::json::text_in(crate::json::member(r@, "pm"@)) matches Some(name) && named(name)
            == Some(pm),
        crate::json::member(r@, "exts"@) matches Some(JsonV::Array(exts)) && exts.len() == 1
            && exts[0] == JsonV::Str(
            match pm {
                Pm::Pacman => ".pkg.tar.zst"@,
                Pm::Dnf => ".rpm"@,
                Pm::Apt => ".deb"@,
            },
        ),
        pm != other ==> crate::json::member(r@, "exts"@) != crate::json::member(o@, "exts"@),
{
    reveal_strlit("pm");
    reveal_strlit("exts");
    reveal_strlit(".pkg.tar.zst");
    reveal_strlit(".rpm");
    reveal_strlit(".deb");
    assert("pm"@ != "exts"@) by {
        assert("pm"@.len() != "exts"@.len());
    }
    law_name_of_named(pm);
    lemma_info_members(r, pm);
    lemma_info_members(o, other);
    assert(".pkg.tar.zst"@.len() == 12 && ".rpm"@.len() == 4 && ".deb"@.len() == 4);
    assert(".rpm"@[1] == 'r' && ".deb"@[1] == 'd');
    let mine = seq![JsonV::Str(extension_of(pm))];
    let theirs = seq![JsonV::Str(extension_of(other))];
    assert(mine[0] == JsonV::Str(extension_of(pm)));
    assert(theirs[0] == JsonV::Str(extension_of(other)));
}

proof fn lemma_info_members(r: Json, pm: Pm)
    requires
        r@ == JsonV::Object(
            seq![
                ("pm"@, JsonV::Str(name_of(pm))),
                ("exts"@, JsonV::Array(seq![JsonV::Str(extension_of(pm))])),
            ],
        ),
        "pm"@ != "exts"@,
    ensures
        crate::json::member(r@, "pm"@) == Some(JsonV::Str(name_of(pm))),
        crate::json::member(r@, "exts"@) == Some(
            JsonV::Array(seq![JsonV::Str(extension_of(pm))]),
        ),
{
    let first = ("pm"@, JsonV::Str(name_of(pm)));
    let second = ("exts"@, JsonV::Array(seq![JsonV::Str(extension_of(pm))]));
    let none = Seq::<(Seq<char>, JsonV)>::empty();
    crate::json::law_first_member_is_found(none, first.0, first.1, seq![second]);
    crate::json::law_first_member_is_found(seq![first], second.0, second.1, none);
    assert(seq![first, second] =~= none.push(first) + seq![second]);
    assert(seq![first, second] =~= seq![first].push(second) + none);
}

} // verus!

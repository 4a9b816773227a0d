//! The colour theme of the desktop: dark, light, or left to the window.

use vstd::prelude::*;
use vstd::string::*;
use vstd::utf8::*;
use crate::process::{command, output_text, text_of_output, CommandLine, CommandV, Output};
use crate::text::{
    all_white,
    ascii_lower,
    contains,
    first_char,
    is_white,
    law_found_between,
    law_piece_starts_after_the_mark,
    law_trim_front_undoes_padding,
    lemma_occurs_first,
    lossy,
    lowercase,
    occurs,
    occurs_at,
    opt_text,
    piece_after,
    plain_case,
    second_piece,
    to_lowercase,
    trim_front,
    trim_start,
};

verus! {

/// Who is asked for the theme.
#[derive(Clone, Copy, Debug, PartialEq)]
pub enum ThemeSource {
    Portal,
    Kde6,
    Kde5,
    Gnome,
}

/// The command that asks a source.
pub open spec fn theme_command(source: ThemeSource) -> CommandV {
    match source {
        ThemeSource::Portal => command(
            "gdbus"@,
            seq![
                "call"@,
                "--session"@,
                "--dest"@,
                "org.freedesktop.portal.Desktop"@,
                "--object-path"@,
                "/org/freedesktop/portal/desktop"@,
                "--method"@,
                "org.freedesktop.portal.Settings.ReadOne"@,
                "org.freedesktop.appearance"@,
                "color-scheme"@,
            ],
        ),
        ThemeSource::Kde6 => command(
            "kreadconfig6"@,
            seq!["--group"@, "General"@, "--key"@, "ColorScheme"@],
        ),
        ThemeSource::Kde5 => command(
            "kreadconfig5"@,
            seq!["--group"@, "General"@, "--key"@, "ColorScheme"@],
        ),
        ThemeSource::Gnome => command(
            "gsettings"@,
            seq!["get"@, "org.gnome.desktop.interface"@, "color-scheme"@],
        ),
    }
}

/// The theme in the answer of the portal, such as `(<uint32 1>,)`: one is dark, two is light, and
/// any other number is no answer.
pub open spec fn portal_theme(answer: Seq<char>) -> Option<Seq<char>> {
    match second_piece(answer, "uint32"@) {
        Some(piece) => {
            let t = trim_start(piece);
            if t.len() > 0 && t[0] == '1' {
                Some("dark"@)
            } else if t.len() > 0 && t[0] == '2' {
                Some("light"@)
            } else {
                None
            }
        },
        None => None,
    }
}

/// The theme that the name of a colour scheme in lower case tells.
pub open spec fn scheme_theme(scheme: Seq<char>) -> Option<Seq<char>> {
    if occurs(scheme, "dark"@) {
        Some("dark"@)
    } else if occurs(scheme, "light"@) {
        Some("light"@)
    } else {
        None
    }
}

/// The theme in what a source wrote, where it was asked at all.
pub open spec fn answered(source: ThemeSource, answer: Option<Seq<char>>) -> Option<Seq<char>> {
    match answer {
        Some(text) => if source is Portal {
            portal_theme(text)
        } else {
            scheme_theme(lowercase(text))
        },
        None => None,
    }
}

/// The source that is asked next.
pub open spec fn next_source(source: ThemeSource) -> Option<ThemeSource> {
    match source {
        ThemeSource::Portal => Some(ThemeSource::Kde6),
        ThemeSource::Kde6 => Some(ThemeSource::Kde5),
        ThemeSource::Kde5 => Some(ThemeSource::Gnome),
        ThemeSource::Gnome => None,
    }
}

/// The theme in the answer of the portal.
pub fn portal_color_scheme(answer: &str) -> (r: Option<String>)
    ensures
        opt_text(r) == portal_theme(answer@),
{
    match piece_after(answer, "uint32") {
        Some(piece) => match first_char(trim_front(piece.as_str()).as_str()) {
            Some(c) => if c == '1' {
                Some("dark".to_owned())
            } else if c == '2' {
                Some("light".to_owned())
            } else {
                None
            },
            None => None,
        },
        None => None,
    }
}

/// The theme that the name of a colour scheme in lower case tells.
pub fn named_scheme(scheme: &str) -> (r: Option<String>)
    ensures
        opt_text(r) == scheme_theme(scheme@),
{
    if contains(scheme, "dark") {
        Some("dark".to_owned())
    } else if contains(scheme, "light") {
        Some("light".to_owned())
    } else {
        None
    }
}

/// What follows the answer of a source.
#[derive(Debug, PartialEq)]
pub enum ThemeStep {
    /// Ask the next source.
    Ask(ThemeSource),
    /// The theme.
    Found(String),
}

/// What a step of the detection is, where the source gave `theme` or no theme.
pub open spec fn theme_step(r: ThemeStep, source: ThemeSource, theme: Option<Seq<char>>) -> bool {
    match theme {
        Some(t) => r matches ThemeStep::Found(s) && s@ == t,
        None => match next_source(source) {
            Some(next) => r == ThemeStep::Ask(next),
            None => r matches ThemeStep::Found(s) && s@ == "auto"@,
        },
    }
}

/// The source that is asked first: the portal, which answers for the session that is running.
pub fn detect_system_theme() -> (r: ThemeSource)
    ensures
        r == ThemeSource::Portal,
{
    ThemeSource::Portal
}

impl ThemeSource {
    /// The command that asks this source.
    pub fn command(self) -> (r: CommandLine)
        ensures
            r@ == theme_command(self),
    {
        match self {
            ThemeSource::Portal => CommandLine::new("gdbus").arg("call").arg("--session").arg(
                "--dest",
            ).arg("org.freedesktop.portal.Desktop").arg("--object-path").arg(
                "/org/freedesktop/portal/desktop",
            ).arg("--method").arg("org.freedesktop.portal.Settings.ReadOne").arg(
                "org.freedesktop.appearance",
            ).arg("color-scheme"),
            ThemeSource::Kde6 => CommandLine::new("kreadconfig6").arg("--group").arg("General").arg(
                "--key",
            ).arg("ColorScheme"),
            ThemeSource::Kde5 => CommandLine::new("kreadconfig5").arg("--group").arg("General").arg(
                "--key",
            ).arg("ColorScheme"),
            ThemeSource::Gnome => CommandLine::new("gsettings").arg("get").arg(
                "org.gnome.desktop.interface",
            ).arg("color-scheme"),
        }
    }

    /// What follows where this source gave `theme`, or no theme.
    pub fn decided(self, theme: Option<String>) -> (r: ThemeStep)
        ensures
            theme_step(r, self, opt_text(theme)),
    {
        match theme {
            Some(t) => ThemeStep::Found(t),
            None => match self {
                ThemeSource::Portal => ThemeStep::Ask(ThemeSource::Kde6),
                ThemeSource::Kde6 => ThemeStep::Ask(ThemeSource::Kde5),
                ThemeSource::Kde5 => ThemeStep::Ask(ThemeSource::Gnome),
                ThemeSource::Gnome => ThemeStep::Found("auto".to_owned()),
            },
        }
    }

    /// What follows once the command of this source has ended, or could not be run.
    pub fn asked(self, out: &Option<Output>) -> (r: ThemeStep)
        ensures
            theme_step(r, self, answered(self, output_text(*out))),
            self !is Portal ==> (output_text(*out) matches Some(text) ==> plain_case(text)),
    {
        let theme = match text_of_output(out) {
            Some(text) => match self {
                ThemeSource::Portal => portal_color_scheme(text.as_str()),
                _ => named_scheme(to_lowercase(text.as_str()).as_str()),
            },
            None => None,
        };
        self.decided(theme)
    }
}

/// How many sources come after a source.
pub open spec fn sources_left(source: ThemeSource) -> nat {
    match source {
        ThemeSource::Portal => 3,
        ThemeSource::Kde6 => 2,
        ThemeSource::Kde5 => 1,
        ThemeSource::Gnome => 0,
    }
}

/// The theme that asking leads to from a source on, where `answers` gives what each source writes.
pub open spec fn detected_theme(
    source: ThemeSource,
    answers: spec_fn(ThemeSource) -> Option<Seq<char>>,
) -> Seq<char>
    decreases sources_left(source),
{
    match answered(source, answers(source)) {
        Some(t) => t,
        None => match next_source(source) {
            Some(next) => detected_theme(next, answers),
            None => "auto"@,
        },
    }
}

/// The theme is dark, light or automatic; the portal counts over every other source; and it is
/// automatic where no source tells a theme.
pub proof fn law_portal_counts_first(answers: spec_fn(ThemeSource) -> Option<Seq<char>>)
    ensures
        ({
            let t = detected_theme(ThemeSource::Portal, answers);
            t == "dark"@ || t == "light"@ || t == "auto"@
        }),
        answered(ThemeSource::Portal, answers(ThemeSource::Portal)) matches Some(t)
            ==> detected_theme(ThemeSource::Portal, answers) == t,
        (forall|s: ThemeSource| answered(s, #[trigger] answers(s)) is None) ==> detected_theme(
            ThemeSource::Portal,
            answers,
        ) == "auto"@,
{
    reveal_with_fuel(detected_theme, 5);
}

/// The portal answers with the number after the first mark of its type: one is dark, two is light,
/// and any other is no answer. What comes before the mark and after the number does not matter.
pub proof fn law_number_of_the_portal(
    answer: &str,
    before: Seq<char>,
    gap: Seq<char>,
    n: char,
    after: Seq<char>,
    r: Option<String>,
)
    requires
        call_ensures(portal_color_scheme, (answer,), r),
        !before.contains('u'),
        all_white(gap),
        !is_white(n),
        n != 'u',
        answer@ == before + "uint32"@ + (gap.push(n) + after),
    ensures
        n == '1' ==> (r matches Some(t) && t@ == "dark"@),
        n == '2' ==> (r matches Some(t) && t@ == "light"@),
        n != '1' && n != '2' ==> r is None,
{
    reveal_strlit("uint32");
    let mark = "uint32"@;
    let b = gap.push(n) + after;
    let s = before + mark + b;
    let k = gap.len() as int + 1;
    assert forall|i: int| 0 <= i < before.len() implies !occurs_at(s, mark, i) by {
        if occurs_at(s, mark, i) {
            assert(s.subrange(i, i + mark.len())[0] == s[i]);
            assert(before.contains(before[i]));
        }
    }
    assert forall|i: int| 0 <= i < k implies !occurs_at(b, mark, i) by {
        if occurs_at(b, mark, i) {
            assert(b.subrange(i, i + mark.len())[0] == b[i]);
            if i < gap.len() {
                assert(is_white(gap[i]));
            }
        }
    }
    law_piece_starts_after_the_mark(before, mark, b, k);
    let piece = second_piece(s, mark)->0;
    let rest = piece.skip(gap.len() as int);
    assert forall|i: int| 0 <= i < gap.len() implies piece[i] == gap[i] by {
        assert(piece.take(k)[i] == b.take(k)[i]);
    }
    assert(piece =~= gap + rest);
    assert(piece.take(k)[k - 1] == b.take(k)[k - 1]);
    assert(rest[0] == n);
    law_trim_front_undoes_padding(gap, rest);
}

/// An answer of the portal without a number of that type is no answer.
pub proof fn law_portal_without_a_number(answer: &str, r: Option<String>)
    requires
        call_ensures(portal_color_scheme, (answer,), r),
        !occurs(answer@, "uint32"@),
    ensures
        r is None,
{
    lemma_occurs_first(answer@, "uint32"@);
}

/// A colour scheme is dark where its name says so anywhere, and else light where it says so; any other
/// name tells nothing.
pub proof fn law_name_of_a_scheme(scheme: &str, a: Seq<char>, b: Seq<char>, r: Option<String>)
    requires
        call_ensures(named_scheme, (scheme,), r),
    ensures
        scheme@ == a + "dark"@ + b ==> (r matches Some(t) && t@ == "dark"@),
        scheme@ == a + "light"@ + b && !occurs(scheme@, "dark"@) ==> (r matches Some(t) && t@
            == "light"@),
        !occurs(scheme@, "dark"@) && !occurs(scheme@, "light"@) ==> r is None,
{
    law_found_between(scheme@, "dark"@);
    law_found_between(scheme@, "light"@);
}

/// The portal is asked first. What it answers is the theme; without an answer the sources of the two
/// Plasma versions are asked, the newer first, and then that of GNOME; without any answer the theme
/// is left to the window.
pub proof fn law_sources_in_order(
    first: ThemeSource,
    source: ThemeSource,
    theme: Option<String>,
    r: ThemeStep,
)
    requires
        call_ensures(detect_system_theme, (), first),
        call_ensures(ThemeSource::decided, (source, theme), r),
    ensures
        first is Portal,
        theme matches Some(t) ==> (r matches ThemeStep::Found(found) && found@ == t@),
        theme is None && source is Portal ==> r == ThemeStep::Ask(ThemeSource::Kde6),
        theme is None && source is Kde6 ==> r == ThemeStep::Ask(ThemeSource::Kde5),
        theme is None && source is Kde5 ==> r == ThemeStep::Ask(ThemeSource::Gnome),
        theme is None && source is Gnome ==> (r matches ThemeStep::Found(found) && found@
            == "auto"@),
{
}

/// What a source writes is read in the way of that source, whatever its exit code is, and a source
/// that could not be asked gives no theme. The names of colour schemes count in capital and small
/// letters alike.
pub proof fn law_answer_of_a_source(
    source: ThemeSource,
    out: Option<Output>,
    text: &str,
    small: &str,
    number: Option<String>,
    scheme: Option<String>,
    theme: Option<String>,
    r: ThemeStep,
    decided: ThemeStep,
)
    requires
        call_ensures(ThemeSource::asked, (source, &out), r),
        call_ensures(portal_color_scheme, (text,), number),
        call_ensures(named_scheme, (small,), scheme),
        call_ensures(ThemeSource::decided, (source, theme), decided),
        out matches Some(o) ==> text@ == lossy(o.stdout@),
        is_ascii_chars(text@),
        small@ == text@.map_values(|c: char| ascii_lower(c)),
        out is None ==> theme is None,
        out is Some && source is Portal ==> theme == number,
        out is Some && source !is Portal ==> theme == scheme,
    ensures
        r is Found == decided is Found,
        r matches ThemeStep::Found(t) ==> (decided matches ThemeStep::Found(d) && t@ == d@),
        r is Ask ==> r == decided,
{
}

/// What each source is asked for: the colour scheme of the appearance from the portal, that of the
/// general settings from Plasma, and that of the interface from GNOME.
pub proof fn law_questions_to_the_sources(source: ThemeSource, c: CommandLine)
    requires
        call_ensures(ThemeSource::command, (source,), c),
    ensures
        source is Portal ==> c@.program == "gdbus"@ && c@.args == seq![
            "call"@,
            "--session"@,
            "--dest"@,
            "org.freedesktop.portal.Desktop"@,
            "--object-path"@,
            "/org/freedesktop/portal/desktop"@,
            "--method"@,
            "org.freedesktop.portal.Settings.ReadOne"@,
            "org.freedesktop.appearance"@,
            "color-scheme"@,
        ],
        source is Kde6 ==> c@.program == "kreadconfig6"@,
        source is Kde5 ==> c@.program == "kreadconfig5"@,
        source is Kde6 || source is Kde5 ==> c@.args == seq![
            "--group"@,
            "General"@,
            "--key"@,
            "ColorScheme"@,
        ],
        source is Gnome ==> c@.program == "gsettings"@ && c@.args == seq![
            "get"@,
            "org.gnome.desktop.interface"@,
            "color-scheme"@,
        ],
{
}

/// The theme is that of the first source that answers, in the order of asking.
pub proof fn law_first_answer_counts(answers: spec_fn(ThemeSource) -> Option<Seq<char>>)
    ensures
        ({
            let portal = answered(ThemeSource::Portal, answers(ThemeSource::Portal));
            let newer = answered(ThemeSource::Kde6, answers(ThemeSource::Kde6));
            let older = answered(ThemeSource::Kde5, answers(ThemeSource::Kde5));
            let gnome = answered(ThemeSource::Gnome, answers(ThemeSource::Gnome));
            detected_theme(ThemeSource::Portal, answers) == (if portal is Some {
                portal->0
            } else if newer is Some {
                newer->0
            } else if older is Some {
                older->0
            } else if gnome is Some {
                gnome->0
            } else {
                "auto"@
            })
        }),
{
    reveal_with_fuel(detected_theme, 5);
}

} // verus!

//! The catalogue of applications: where it comes from, and what is told of each application.

use vstd::prelude::*;
use vstd::string::*;
use crate::json::{
    json_text,
    law_first_member_is_found,
    law_found_is_well_formed,
    law_set_keeps_well_formed,
    law_set_then_get,
    lemma_view,
    member,
    member_trees,
    parse,
    set_member,
    text_in,
    trees,
    well_formed,
    with_member,
    Json,
    JsonV,
};
use crate::packages::{lookup_installed, or_manual, Installed};
use crate::process::{command, success_text, text_of_success, CommandLine, CommandV, Output};
use crate::text::{
    after_last,
    ends_with,
    law_what_follows_the_last,
    lossy,
    opt_text,
    same_text,
    tail_after,
};

verus! {

/// Where the catalogue is served unless another place is asked for.
pub const CATALOG_URL: &'static str = "https://bookos.es/api/store.json";

/// The page that is opened for an application without one of its own.
pub const HOME_PAGE: &'static str = "https://bookos.es/";

/// The directory of the store below the cache directory of the user.
pub const CACHE_DIR: &'static str = "bookos-store";

/// The file of the cached catalogue in that directory.
pub const CACHE_FILE: &'static str = "catalog.json";

/// For how many seconds a cached catalogue is taken as current.
pub const CACHE_SECONDS: u64 = 600;

/// Where the catalogue is fetched: the place asked for, else [`CATALOG_URL`].
pub fn catalog_url(asked: Option<String>) -> (r: String)
    ensures
        r@ == (match opt_text(asked) {
            Some(url) => url,
            None => CATALOG_URL@,
        }),
{
    match asked {
        Some(url) => url,
        None => CATALOG_URL.to_owned(),
    }
}

/// Whether invalid certificates are accepted: only where that was asked for with `1`.
pub fn insecure_tls(asked: &Option<String>) -> (r: bool)
    ensures
        r == (opt_text(*asked) == Some("1"@)),
{
    match asked {
        Some(v) => same_text(v.as_str(), "1"),
        None => false,
    }
}

/// A cached catalogue of known age is current for [`CACHE_SECONDS`].
pub open spec fn current(age: Option<u64>) -> bool {
    match age {
        Some(secs) => secs < CACHE_SECONDS,
        None => false,
    }
}

/// The place to try where the first one fails: a `.json` address with `.php` after it, for a server
/// that does not rewrite addresses.
pub open spec fn fallback_of(url: Seq<char>) -> Option<Seq<char>> {
    if ".json"@.is_suffix_of(url) {
        Some(url + ".php"@)
    } else {
        None
    }
}

/// The arguments of the fetch before the address.
pub open spec fn fetch_options(insecure: bool) -> Seq<Seq<char>> {
    let always = seq![
        "-fsSL"@,
        "--max-time"@,
        "15"@,
        "-H"@,
        "Accept: application/json"@,
        "-H"@,
        "User-Agent: bookos-store"@,
    ];
    if insecure {
        always.push("-k"@)
    } else {
        always
    }
}

/// The command that fetches the catalogue from `url`.
pub open spec fn fetch_command(url: Seq<char>, insecure: bool) -> CommandV {
    command("curl"@, fetch_options(insecure).push(url))
}

/// The applications that a catalogue lists.
pub open spec fn apps_of(doc: JsonV) -> Seq<JsonV> {
    match member(doc, "apps"@) {
        Some(JsonV::Array(items)) => items,
        _ => Seq::empty(),
    }
}

/// An application of a catalogue that may be out of date.
pub open spec fn stale_app(app: JsonV) -> JsonV {
    match app {
        JsonV::Object(members) => JsonV::Object(
            with_member(members, "_stale"@, JsonV::Bool(true)),
        ),
        _ => app,
    }
}

/// The applications of a catalogue that may be out of date.
pub open spec fn stale_apps(apps: Seq<JsonV>) -> Seq<JsonV> {
    apps.map_values(|a: JsonV| stale_app(a))
}

/// The document that an optional text writes.
pub open spec fn doc_in(text: Option<Seq<char>>) -> Option<JsonV> {
    match text {
        Some(t) => json_text(t),
        None => None,
    }
}

/// The applications that `doc` lists.
pub fn catalog_apps(doc: &Json) -> (r: Vec<Json>)
    ensures
        trees(r@) == apps_of(doc@),
{
    let mut r: Vec<Json> = Vec::new();
    assert(trees(r@) =~= Seq::empty());
    if let Some(list) = doc.get("apps") {
        if let Some(items) = list.as_array() {
            let mut i: usize = 0;
            while i < items.len()
                invariant
                    i <= items@.len(),
                    trees(r@) == trees(items@).take(i as int),
                decreases items@.len() - i,
            {
                let ghost before = r@;
                let app = items[i].duplicate();
                r.push(app);
                assert(trees(r@) =~= trees(before).push(app@));
                assert(trees(items@).take(i + 1) =~= trees(items@).take(i as int).push(app@));
                i = i + 1;
            }
            assert(trees(items@).take(i as int) =~= trees(items@));
        }
    }
    r
}

/// The applications, marked as possibly out of date.
pub fn mark_stale(apps: Vec<Json>) -> (r: Vec<Json>)
    ensures
        trees(r@) == stale_apps(trees(apps@)),
{
    let ghost given = apps@;
    let mut r: Vec<Json> = Vec::new();
    for app in it: apps
        invariant
            it.seq() == given,
            r@.len() == it.index(),
            forall|k: int| 0 <= k < r@.len() ==> #[trigger] r@[k]@ == stale_app(given[k]@),
    {
        proof {
            lemma_view(app);
        }
        let marked = match app {
            Json::Object(members) => Json::Object(set_member(members, "_stale", Json::Bool(true))),
            _ => app,
        };
        proof {
            lemma_view(marked);
        }
        r.push(marked);
    }
    assert(trees(r@) =~= stale_apps(trees(given)));
    r
}

/// A cached catalogue that is taken as current and is to be read.
#[derive(Debug)]
pub struct FreshCache {
    pub url: String,
    pub insecure: bool,
}

/// A fetch of the catalogue that is to be run.
#[derive(Debug)]
pub struct Fetch {
    pub url: String,
    pub fallback: Option<String>,
    pub insecure: bool,
}

/// What is to be done next to get the catalogue.
#[derive(Debug)]
pub enum CatalogStep {
    /// Read the cached catalogue and hand its text to [`FreshCache::loaded`].
    ReadFresh(FreshCache),
    /// Run the command of the fetch and hand what it leaves behind to [`Fetch::finished`].
    Run(Fetch),
    /// Read the cached catalogue, however old, and hand its text to [`stale_catalog`].
    ReadStale,
    /// Write the body to the cache; the applications are the answer.
    Publish { body: String, apps: Vec<Json> },
    /// The applications are the answer.
    Done(Vec<Json>),
}

/// What a [`CatalogStep`] stands for.
#[verifier::ext_equal]
pub enum StepV {
    ReadFresh { url: Seq<char>, insecure: bool },
    Run { url: Seq<char>, fallback: Option<Seq<char>>, insecure: bool },
    ReadStale,
    Publish { body: Seq<char>, apps: Seq<JsonV> },
    Done(Seq<JsonV>),
}

impl View for CatalogStep {
    type V = StepV;

    open spec fn view(&self) -> StepV {
        match *self {
            CatalogStep::ReadFresh(c) => StepV::ReadFresh { url: c.url@, insecure: c.insecure },
            CatalogStep::Run(f) => StepV::Run {
                url: f.url@,
                fallback: opt_text(f.fallback),
                insecure: f.insecure,
            },
            CatalogStep::ReadStale => StepV::ReadStale,
            CatalogStep::Publish { body, apps } => StepV::Publish {
                body: body@,
                apps: trees(apps@),
            },
            CatalogStep::Done(apps) => StepV::Done(trees(apps@)),
        }
    }
}

/// The first fetch.
pub open spec fn first_fetch(url: Seq<char>, insecure: bool) -> StepV {
    StepV::Run { url, fallback: fallback_of(url), insecure }
}

/// The first step: without a cache directory there is no catalogue, and nothing is fetched; a cached
/// catalogue that is current spares the fetch.
pub open spec fn first_step(
    has_dir: bool,
    age: Option<u64>,
    url: Seq<char>,
    insecure: bool,
) -> StepV {
    if !has_dir {
        StepV::Done(Seq::empty())
    } else if current(age) {
        StepV::ReadFresh { url, insecure }
    } else {
        first_fetch(url, insecure)
    }
}

/// The step after a cached catalogue that is current was read, or could not be.
pub open spec fn after_fresh(url: Seq<char>, insecure: bool, doc: Option<JsonV>) -> StepV {
    match doc {
        Some(d) => StepV::Done(apps_of(d)),
        None => first_fetch(url, insecure),
    }
}

/// The step after a fetch that brought a body which reads as a document, or did not.
pub open spec fn after_fetch(
    fallback: Option<Seq<char>>,
    insecure: bool,
    answer: Option<(Seq<char>, JsonV)>,
) -> StepV {
    match answer {
        Some((body, d)) => StepV::Publish { body, apps: apps_of(d) },
        None => match fallback {
            Some(url) => StepV::Run { url, fallback: None, insecure },
            None => StepV::ReadStale,
        },
    }
}

/// A body together with the document that it writes, where it writes one.
pub open spec fn answer_in(body: Option<Seq<char>>) -> Option<(Seq<char>, JsonV)> {
    match body {
        Some(b) => match json_text(b) {
            Some(d) => Some((b, d)),
            None => None,
        },
        None => None,
    }
}

/// The applications of a cached catalogue of any age, marked as possibly out of date; none where
/// there is no such catalogue.
pub open spec fn from_stale(doc: Option<JsonV>) -> Seq<JsonV> {
    match doc {
        Some(d) => stale_apps(apps_of(d)),
        None => Seq::empty(),
    }
}

fn start_fetch(url: String, insecure: bool) -> (r: CatalogStep)
    ensures
        r@ == first_fetch(url@, insecure),
{
    let fallback = if ends_with(url.as_str(), ".json") {
        Some(url.clone().concat(".php"))
    } else {
        None
    };
    CatalogStep::Run(Fetch { url, fallback, insecure })
}

/// The first step towards the catalogue at `url`, where the cached one is `age` seconds old.
/// `has_dir` tells whether the user has a cache directory.
pub fn fetch_catalog(has_dir: bool, age: Option<u64>, url: String, insecure: bool) -> (r:
    CatalogStep)
    ensures
        r@ == first_step(has_dir, age, url@, insecure),
{
    if !has_dir {
        let none: Vec<Json> = Vec::new();
        assert(trees(none@) =~= Seq::empty());
        return CatalogStep::Done(none);
    }
    match age {
        Some(secs) => if secs < CACHE_SECONDS {
            CatalogStep::ReadFresh(FreshCache { url, insecure })
        } else {
            start_fetch(url, insecure)
        },
        None => start_fetch(url, insecure),
    }
}

impl FreshCache {
    /// The step after the cached catalogue was read as `doc`, or could not be read.
    pub fn decided(self, doc: Option<Json>) -> (r: CatalogStep)
        ensures
            r@ == after_fresh(
                self.url@,
                self.insecure,
                match doc {
                    Some(d) => Some(d@),
                    None => None,
                },
            ),
    {
        match doc {
            Some(d) => CatalogStep::Done(catalog_apps(&d)),
            None => start_fetch(self.url, self.insecure),
        }
    }

    /// The step after the text of the cached catalogue was read, or could not be.
    pub fn loaded(self, text: &Option<String>) -> (r: CatalogStep)
        ensures
            r@ == after_fresh(self.url@, self.insecure, doc_in(opt_text(*text))),
    {
        self.decided(read_doc(text))
    }
}

/// The document that an optional text writes.
fn read_doc(text: &Option<String>) -> (r: Option<Json>)
    ensures
        match r {
            Some(d) => doc_in(opt_text(*text)) == Some(d@) && well_formed(d@),
            None => doc_in(opt_text(*text)) is None,
        },
{
    match text {
        Some(t) => parse(t.as_str()),
        None => None,
    }
}

impl Fetch {
    /// The command of this fetch.
    pub fn command(&self) -> (r: CommandLine)
        ensures
            r@ == fetch_command(self.url@, self.insecure),
    {
        let c = CommandLine::new("curl").arg("-fsSL").arg("--max-time").arg("15").arg("-H").arg(
            "Accept: application/json",
        ).arg("-H").arg("User-Agent: bookos-store");
        assert(c@ =~= command("curl"@, fetch_options(false)));
        let c = if self.insecure {
            c.arg("-k")
        } else {
            c
        };
        c.arg(self.url.as_str())
    }

    /// The step after this fetch brought a body that reads as a document, or did not.
    pub fn decided(self, answer: Option<(String, Json)>) -> (r: CatalogStep)
        ensures
            r@ == after_fetch(
                opt_text(self.fallback),
                self.insecure,
                match answer {
                    Some((body, d)) => Some((body@, d@)),
                    None => None,
                },
            ),
    {
        match answer {
            Some((body, d)) => {
                let apps = catalog_apps(&d);
                CatalogStep::Publish { body, apps }
            },
            None => match self.fallback {
                Some(url) => CatalogStep::Run(
                    Fetch { url, fallback: None, insecure: self.insecure },
                ),
                None => CatalogStep::ReadStale,
            },
        }
    }

    /// The step after the command of this fetch has ended, or could not be run.
    pub fn finished(self, out: &Option<Output>) -> (r: CatalogStep)
        ensures
            r@ == after_fetch(opt_text(self.fallback), self.insecure, answer_in(success_text(*out))),
    {
        match text_of_success(out) {
            Some(body) => match parse(body.as_str()) {
                Some(d) => self.decided(Some((body, d))),
                None => self.decided(None),
            },
            None => self.decided(None),
        }
    }
}

/// The applications of a cached catalogue of any age, read as `doc`.
pub fn stale_document(doc: Option<Json>) -> (r: Vec<Json>)
    ensures
        trees(r@) == from_stale(
            match doc {
                Some(d) => Some(d@),
                None => None,
            },
        ),
{
    match doc {
        Some(d) => mark_stale(catalog_apps(&d)),
        None => {
            let r: Vec<Json> = Vec::new();
            assert(trees(r@) =~= Seq::empty());
            r
        },
    }
}

/// The applications of a cached catalogue of any age, from its text.
pub fn stale_catalog(text: &Option<String>) -> (r: Vec<Json>)
    ensures
        trees(r@) == from_stale(doc_in(opt_text(*text))),
{
    stale_document(read_doc(text))
}

/// How many steps can still come before the answer.
pub open spec fn steps_left(step: StepV) -> nat {
    match step {
        StepV::ReadFresh { .. } => 4,
        StepV::Run { fallback, .. } => if fallback is Some {
            3
        } else {
            2
        },
        StepV::ReadStale => 1,
        StepV::Publish { .. } => 0,
        StepV::Done(_) => 0,
    }
}

/// The answer that the steps lead to. `cached` is the text of the cache, and `answers` gives the
/// body that a successful fetch from an address brings.
pub open spec fn outcome(
    step: StepV,
    cached: Option<Seq<char>>,
    answers: spec_fn(Seq<char>) -> Option<Seq<char>>,
) -> Seq<JsonV>
    decreases steps_left(step),
{
    match step {
        StepV::ReadFresh { url, insecure } => outcome(
            after_fresh(url, insecure, doc_in(cached)),
            cached,
            answers,
        ),
        StepV::Run { url, fallback, insecure } => outcome(
            after_fetch(fallback, insecure, answer_in(answers(url))),
            cached,
            answers,
        ),
        StepV::ReadStale => from_stale(doc_in(cached)),
        StepV::Publish { body, apps } => apps,
        StepV::Done(apps) => apps,
    }
}

/// The way to the catalogue ends: every step that is not the answer leaves fewer steps to come.
pub proof fn law_catalog_steps_end(
    url: Seq<char>,
    fallback: Option<Seq<char>>,
    insecure: bool,
    doc: Option<JsonV>,
    answer: Option<(Seq<char>, JsonV)>,
)
    ensures
        steps_left(after_fresh(url, insecure, doc)) < steps_left(
            StepV::ReadFresh { url, insecure },
        ),
        steps_left(after_fetch(fallback, insecure, answer)) < steps_left(
            StepV::Run { url, fallback, insecure },
        ),
{
}

/// The catalogue is that of the first source which reads as a document: the cached catalogue where
/// it is current, then the address, then the fallback address. Failing these it is the cached
/// catalogue of any age with every application marked, and without one it is empty. Without a cache
/// directory it is empty whatever the sources hold.
pub proof fn law_first_readable_source(
    has_dir: bool,
    age: Option<u64>,
    url: Seq<char>,
    insecure: bool,
    cached: Option<Seq<char>>,
    answers: spec_fn(Seq<char>) -> Option<Seq<char>>,
)
    ensures
        outcome(first_step(has_dir, age, url, insecure), cached, answers) == (if !has_dir {
            Seq::empty()
        } else if current(age) && doc_in(cached) is Some {
            apps_of(doc_in(cached)->0)
        } else if doc_in(answers(url)) is Some {
            apps_of(doc_in(answers(url))->0)
        } else if fallback_of(url) is Some && doc_in(answers(fallback_of(url)->0)) is Some {
            apps_of(doc_in(answers(fallback_of(url)->0))->0)
        } else {
            from_stale(doc_in(cached))
        }),
{
    reveal_with_fuel(outcome, 5);
}

/// What is written to the cache gives the same applications when it is read while it is current.
pub proof fn law_cache_gives_back(
    fallback: Option<Seq<char>>,
    insecure: bool,
    fetched: Option<Seq<char>>,
    url: Seq<char>,
)
    ensures
        after_fetch(fallback, insecure, answer_in(fetched)) matches StepV::Publish { body, apps }
            ==> after_fresh(url, insecure, doc_in(Some(body))) == StepV::Done(apps),
{
}

/// Certificates are checked on every fetch unless the opposite was asked for: no step changes what
/// was asked for, and the option that turns the check off is an argument exactly where it was asked
/// for. An address that is itself written like that option tells nothing, and is left out.
pub proof fn law_no_silent_insecure_fetch(
    asked: bool,
    has_dir: bool,
    age: Option<u64>,
    url: Seq<char>,
    fallback: Option<Seq<char>>,
    doc: Option<JsonV>,
    answer: Option<(Seq<char>, JsonV)>,
)
    ensures
        first_step(has_dir, age, url, asked) matches StepV::ReadFresh { insecure, .. } ==> insecure
            == asked,
        first_step(has_dir, age, url, asked) matches StepV::Run { insecure, .. } ==> insecure
            == asked,
        after_fresh(url, asked, doc) matches StepV::Run { insecure, .. } ==> insecure == asked,
        after_fetch(fallback, asked, answer) matches StepV::Run { insecure, .. } ==> insecure
            == asked,
        url != "-k"@ ==> (fetch_command(url, asked).args.contains("-k"@) <==> asked),
        fallback_of(url) matches Some(second) ==> (fetch_command(second, asked).args.contains(
            "-k"@,
        ) <==> asked),
{
    reveal_strlit("-k");
    reveal_strlit("-fsSL");
    reveal_strlit("--max-time");
    reveal_strlit("15");
    reveal_strlit("-H");
    reveal_strlit("Accept: application/json");
    reveal_strlit("User-Agent: bookos-store");
    assert("-k"@[0] == '-' && "-k"@[1] == 'k' && "-H"@[1] == 'H' && "15"@[0] == '1');
    reveal_strlit(".php");
    assert((url + ".php"@).len() > "-k"@.len());
    if asked {
        assert(fetch_command(url, asked).args[7] == "-k"@);
        assert(fetch_command(url + ".php"@, asked).args[7] == "-k"@);
    }
}

/// The package of an application; empty where none is given.
pub open spec fn pkg_of(app: JsonV) -> Seq<char> {
    match text_in(member(app, "pkg"@)) {
        Some(pkg) => pkg,
        None => Seq::empty(),
    }
}

/// The package of `app`.
pub fn app_pkg(app: &Json) -> (r: String)
    ensures
        r@ == pkg_of(app@),
{
    if let Some(v) = app.get("pkg") {
        if let Some(pkg) = v.as_str() {
            return pkg.to_owned();
        }
    }
    String::new()
}

/// A member can be set on an object, and on nothing, which then becomes an object.
pub open spec fn takes_members(app: JsonV) -> bool {
    app is Object || app is Null
}

/// Whether a member can be set on `app`.
pub fn can_take_members(app: &Json) -> (r: bool)
    ensures
        r == takes_members(app@),
{
    match app {
        Json::Object(_) => true,
        Json::Null => true,
        _ => false,
    }
}

/// An optional text as a value.
pub open spec fn optional_text(v: Option<Seq<char>>) -> JsonV {
    match v {
        Some(s) => JsonV::Str(s),
        None => JsonV::Null,
    }
}

/// An application with its installed version.
pub open spec fn with_installed(app: JsonV, version: Option<Seq<char>>) -> JsonV {
    let members = match app {
        JsonV::Object(members) => members,
        _ => Seq::empty(),
    };
    JsonV::Object(with_member(members, "installed"@, optional_text(version)))
}

/// The installed version of `pkg` as far as the list and the disk tell.
pub open spec fn version_of(
    installed: Map<Seq<char>, Seq<char>>,
    pkg: Seq<char>,
    on_disk: bool,
) -> Option<Seq<char>> {
    or_manual(
        if installed.contains_key(pkg) {
            Some(installed[pkg])
        } else {
            None
        },
        on_disk,
    )
}

/// The application with `version` as its installed version.
pub fn set_installed(app: Json, version: Option<String>) -> (r: Json)
    requires
        takes_members(app@),
    ensures
        r@ == with_installed(app@, opt_text(version)),
{
    proof {
        lemma_view(app);
    }
    let members = match app {
        Json::Object(members) => members,
        _ => Vec::new(),
    };
    assert(app is Null ==> member_trees(members@) =~= Seq::empty());
    let value = match version {
        Some(v) => Json::Str(v),
        None => Json::Null,
    };
    let r = Json::Object(set_member(members, "installed", value));
    proof {
        lemma_view(r);
    }
    r
}

/// The applications, each with its installed version. `on_disk` tells of each application whether
/// the program of its package exists.
pub fn list_apps(apps: Vec<Json>, installed: &Installed, on_disk: &Vec<bool>) -> (r: Vec<Json>)
    requires
        on_disk@.len() == apps@.len(),
        forall|i: int| 0 <= i < apps@.len() ==> takes_members(#[trigger] apps@[i]@),
    ensures
        r@.len() == apps@.len(),
        forall|i: int|
            0 <= i < r@.len() ==> #[trigger] r@[i]@ == with_installed(
                apps@[i]@,
                version_of(installed@, pkg_of(apps@[i]@), on_disk@[i]),
            ),
{
    let ghost given = apps@;
    let mut r: Vec<Json> = Vec::new();
    for app in it: apps
        invariant
            it.seq() == given,
            on_disk@.len() == given.len(),
            forall|i: int| 0 <= i < given.len() ==> takes_members(#[trigger] given[i]@),
            r@.len() == it.index(),
            forall|i: int|
                0 <= i < r@.len() ==> #[trigger] r@[i]@ == with_installed(
                    given[i]@,
                    version_of(installed@, pkg_of(given[i]@), on_disk@[i]),
                ),
    {
        assert(app == given[it.index() as int]);
        let pkg = app_pkg(&app);
        let version = lookup_installed(installed, pkg.as_str(), on_disk[r.len()]);
        r.push(set_installed(app, version));
    }
    r
}

/// Listing changes nothing of an application but its installed version.
pub proof fn law_listing_keeps_members(app: JsonV, version: Option<Seq<char>>, key: Seq<char>)
    ensures
        member(with_installed(app, version), "installed"@) == Some(optional_text(version)),
        takes_members(app) && key != "installed"@ ==> member(with_installed(app, version), key)
            == member(app, key),
{
    let members = match app {
        JsonV::Object(members) => members,
        _ => Seq::empty(),
    };
    law_set_then_get(members, "installed"@, optional_text(version), key);
}

/// The applications of a well-formed catalogue are well-formed, and stay so when they are listed or
/// marked as possibly out of date: no key ever comes to stand twice.
pub proof fn law_apps_stay_well_formed(doc: JsonV, i: int, version: Option<Seq<char>>)
    requires
        well_formed(doc),
        0 <= i < apps_of(doc).len(),
    ensures
        well_formed(apps_of(doc)[i]),
        well_formed(with_installed(apps_of(doc)[i], version)),
        well_formed(stale_apps(apps_of(doc))[i]),
{
    law_found_is_well_formed(doc, "apps"@);
    let app = apps_of(doc)[i];
    assert(well_formed(app));
    let members = match app {
        JsonV::Object(members) => members,
        _ => Seq::empty(),
    };
    assert(well_formed(JsonV::Object(members)));
    law_set_keeps_well_formed(members, "installed"@, optional_text(version));
    law_set_keeps_well_formed(members, "_stale"@, JsonV::Bool(true));
}

/// An application from a cache that may be out of date says so, and is unchanged otherwise.
pub proof fn law_stale_apps_say_so(app: JsonV, key: Seq<char>)
    requires
        app is Object,
    ensures
        member(stale_app(app), "_stale"@) == Some(JsonV::Bool(true)),
        key != "_stale"@ ==> member(stale_app(app), key) == member(app, key),
{
    law_set_then_get(app->Object_0, "_stale"@, JsonV::Bool(true), key);
}

/// The first application whose package is `pkg`.
pub open spec fn app_called(apps: Seq<JsonV>, pkg: Seq<char>) -> Option<JsonV>
    decreases apps.len(),
{
    if apps.len() == 0 {
        None
    } else if text_in(member(apps[0], "pkg"@)) == Some(pkg) {
        Some(apps[0])
    } else {
        app_called(apps.drop_first(), pkg)
    }
}

proof fn lemma_app_called_skip(apps: Seq<JsonV>, pkg: Seq<char>, i: int)
    requires
        0 <= i <= apps.len(),
        forall|k: int| 0 <= k < i ==> text_in(member(#[trigger] apps[k], "pkg"@)) != Some(pkg),
    ensures
        app_called(apps, pkg) == app_called(apps.skip(i), pkg),
    decreases i,
{
    if i > 0 {
        lemma_app_called_skip(apps.drop_first(), pkg, i - 1);
        assert(apps.drop_first().skip(i - 1) =~= apps.skip(i));
    } else {
        assert(apps.skip(0) =~= apps);
    }
}

/// The first application whose package is `pkg`.
pub fn find_app<'a>(apps: &'a Vec<Json>, pkg: &str) -> (r: Option<&'a Json>)
    ensures
        match r {
            Some(a) => app_called(trees(apps@), pkg@) == Some(a@),
            None => app_called(trees(apps@), pkg@) is None,
        },
{
    let ghost all = trees(apps@);
    let mut i: usize = 0;
    while i < apps.len()
        invariant
            i <= apps@.len(),
            all == trees(apps@),
            forall|k: int| 0 <= k < i ==> text_in(member(#[trigger] all[k], "pkg"@)) != Some(pkg@),
        decreases apps@.len() - i,
    {
        let found = match apps[i].get("pkg") {
            Some(v) => match v.as_str() {
                Some(p) => same_text(p, pkg),
                None => false,
            },
            None => false,
        };
        assert(all[i as int] == apps@[i as int]@);
        assert(found == (text_in(member(all[i as int], "pkg"@)) == Some(pkg@)));
        if found {
            proof {
                lemma_app_called_skip(all, pkg@, i as int);
                assert(all.skip(i as int)[0] == all[i as int]);
            }
            return Some(&apps[i]);
        }
        i = i + 1;
    }
    proof {
        lemma_app_called_skip(all, pkg@, i as int);
    }
    None
}

/// The page of the application that `repo` names by its last segment.
pub open spec fn page_of(apps: Seq<JsonV>, repo: Seq<char>) -> Seq<char> {
    match app_called(apps, after_last(repo, '/')) {
        Some(app) => match text_in(member(app, "html_url"@)) {
            Some(url) => url,
            None => HOME_PAGE@,
        },
        None => HOME_PAGE@,
    }
}

/// The page of the application that `repo` names, else the home page.
fn release_page(apps: &Vec<Json>, repo: &str) -> (r: String)
    ensures
        r@ == page_of(trees(apps@), repo@),
{
    let pkg = tail_after(repo, '/');
    if let Some(app) = find_app(apps, pkg.as_str()) {
        if let Some(v) = app.get("html_url") {
            if let Some(url) = v.as_str() {
                return url.to_owned();
            }
        }
    }
    HOME_PAGE.to_owned()
}

/// The command that opens the page for `repo` in the browser: that of its application, else the home
/// page.
pub fn open_release_page(apps: &Vec<Json>, repo: &str) -> (r: CommandLine)
    ensures
        r@ == command("xdg-open"@, seq![page_of(trees(apps@), repo@)]),
{
    let page = release_page(apps, repo);
    let c = CommandLine::new("xdg-open").arg(page.as_str());
    assert(c@ =~= command("xdg-open"@, seq![page@]));
    c
}

/// The member of `app` called `key`, or `default` where it has none.
pub open spec fn member_or(app: JsonV, key: Seq<char>, default: JsonV) -> JsonV {
    match member(app, key) {
        Some(v) => v,
        None => default,
    }
}

fn member_or_else(app: &Json, key: &str, default: Json) -> (r: Json)
    ensures
        r@ == member_or(app@, key@, default@),
{
    match app.get(key) {
        Some(v) => v.duplicate(),
        None => default,
    }
}

/// The latest release of an application, in the shape of a GitHub release.
pub open spec fn release_of(app: JsonV) -> JsonV {
    JsonV::Object(
        seq![
            ("tag_name"@, member_or(app, "available"@, JsonV::Null)),
            ("assets"@, member_or(app, "assets"@, JsonV::Array(Seq::empty()))),
            ("html_url"@, member_or(app, "html_url"@, JsonV::Str(Seq::empty()))),
            ("body"@, member_or(app, "notes"@, JsonV::Str(Seq::empty()))),
        ],
    )
}

/// The latest release of the application that `repo` names by its last segment.
pub fn fetch_release(apps: &Vec<Json>, repo: &str) -> (r: Result<Json, String>)
    ensures
        match r {
            Ok(j) => app_called(trees(apps@), after_last(repo@, '/')) matches Some(app) && j@
                == release_of(app),
            Err(e) => app_called(trees(apps@), after_last(repo@, '/')) is None && e@ == "App '"@
                + after_last(repo@, '/') + "' no está en el catálogo."@,
        },
{
    let pkg = tail_after(repo, '/');
    match find_app(apps, pkg.as_str()) {
        None => Err(
            "App '".to_owned().concat(pkg.as_str()).concat("' no está en el catálogo."),
        ),
        Some(app) => {
            let no_assets = Json::Array(Vec::new());
            proof {
                lemma_view(no_assets);
                assert(no_assets@->Array_0 =~= Seq::empty());
            }
            let mut members: Vec<(String, Json)> = Vec::new();
            members.push(("tag_name".to_owned(), member_or_else(app, "available", Json::Null)));
            members.push(("assets".to_owned(), member_or_else(app, "assets", no_assets)));
            members.push(
                (
                    "html_url".to_owned(),
                    member_or_else(app, "html_url", Json::Str(String::new())),
                ),
            );
            members.push(
                ("body".to_owned(), member_or_else(app, "notes", Json::Str(String::new()))),
            );
            let r = Json::Object(members);
            proof {
                lemma_view(r);
                assert(member_trees(members@) =~= release_of(app@)->Object_0);
            }
            Ok(r)
        },
    }
}

/// A repository and a bare package name lead to the same application: only the last segment counts.
pub proof fn law_last_segment_counts(owner: Seq<char>, pkg: Seq<char>)
    requires
        !pkg.contains('/'),
    ensures
        after_last(owner.push('/') + pkg, '/') == pkg,
        after_last(pkg, '/') == pkg,
    decreases pkg.len(),
{
    let whole = owner.push('/') + pkg;
    if pkg.len() == 0 {
        assert(whole.last() == '/');
    } else {
        let front = pkg.drop_last();
        assert(pkg.contains(pkg.last()));
        assert forall|c: char| front.contains(c) implies pkg.contains(c) by {
            let k = choose|k: int| 0 <= k < front.len() && front[k] == c;
            assert(pkg[k] == c);
        }
        law_last_segment_counts(owner, front);
        assert(whole.drop_last() =~= owner.push('/') + front);
        assert(whole.last() == pkg.last());
        assert(front.push(pkg.last()) =~= pkg);
    }
}

/// A cached catalogue is current for ten minutes: a younger one is read, and for one that is ten
/// minutes old or older, or of unknown age, the address is asked. What was asked for about
/// certificates goes with it.
pub proof fn law_cache_is_current_for_ten_minutes(
    age: Option<u64>,
    url: String,
    insecure: bool,
    r: CatalogStep,
)
    requires
        call_ensures(fetch_catalog, (true, age, url, insecure), r),
    ensures
        age matches Some(seconds) ==> (seconds < 10 * 60 ==> (r matches CatalogStep::ReadFresh(c)
            && c.url@ == url@ && c.insecure == insecure)),
        age matches Some(seconds) ==> (seconds >= 10 * 60 ==> (r matches CatalogStep::Run(f)
            && f.url@ == url@ && f.insecure == insecure)),
        age is None ==> (r matches CatalogStep::Run(f) && f.url@ == url@ && f.insecure == insecure),
{
    assert(r@ == first_step(true, age, url@, insecure));
}

/// Where a cache of some age leads to a request, every older one does; where it is read, every
/// younger one is.
pub proof fn law_older_cache_is_no_better(
    age: u64,
    older: u64,
    url: String,
    insecure: bool,
    r: CatalogStep,
    later: CatalogStep,
)
    requires
        call_ensures(fetch_catalog, (true, Some(age), url, insecure), r),
        call_ensures(fetch_catalog, (true, Some(older), url, insecure), later),
        age <= older,
    ensures
        r is Run ==> later is Run,
        later is ReadFresh ==> r is ReadFresh,
        r is Run || r is ReadFresh,
{
    law_cache_is_current_for_ten_minutes(Some(age), url, insecure, r);
    law_cache_is_current_for_ten_minutes(Some(older), url, insecure, later);
}

/// Without a cache directory the list is empty and nothing is asked.
pub proof fn law_no_directory_no_catalogue(
    age: Option<u64>,
    url: String,
    insecure: bool,
    r: CatalogStep,
)
    requires
        call_ensures(fetch_catalog, (false, age, url, insecure), r),
    ensures
        r matches CatalogStep::Done(apps) && apps@.len() == 0,
{
    assert(r@ == StepV::Done(Seq::empty()));
    if let CatalogStep::Done(apps) = r {
        assert(trees(apps@).len() == apps@.len());
    }
}

/// An address that ends in `.json` has that address with `.php` behind it as its second, and any
/// other address has none.
pub proof fn law_second_address(
    age: Option<u64>,
    url: String,
    insecure: bool,
    stem: Seq<char>,
    f: Fetch,
)
    requires
        call_ensures(fetch_catalog, (true, age, url, insecure), CatalogStep::Run(f)),
    ensures
        url@ == stem + ".json"@ ==> (f.fallback matches Some(second) && second@ == stem
            + ".json.php"@),
        f.fallback is Some <==> (url@.len() >= 5 && url@.skip(url@.len() - 5) == ".json"@),
{
    let step = CatalogStep::Run(f);
    assert(step@ == first_step(true, age, url@, insecure));
    assert(step@->Run_fallback == opt_text(f.fallback));
    reveal_strlit(".json");
    reveal_strlit(".php");
    reveal_strlit(".json.php");
    let u = url@;
    if url@ == stem + ".json"@ {
        assert(u.subrange(u.len() - 5, u.len() as int) =~= ".json"@);
        assert(".json"@.is_suffix_of(u));
        assert(stem + ".json"@ + ".php"@ =~= stem + ".json.php"@);
    }
    if u.len() >= 5 {
        assert(u.skip(u.len() - 5) =~= u.subrange(u.len() - 5, u.len() as int));
    }
}

/// The list of a catalogue is its member `apps`, item by item; a catalogue without such a list has
/// no applications.
pub proof fn law_list_of_a_catalogue(doc: Json, items: Seq<JsonV>, i: int, r: Vec<Json>)
    requires
        call_ensures(catalog_apps, (&doc,), r),
    ensures
        member(doc@, "apps"@) == Some(JsonV::Array(items)) ==> r@.len() == items.len() && (0 <= i
            < items.len() ==> r@[i]@ == items[i]),
        !(member(doc@, "apps"@) matches Some(JsonV::Array(_))) ==> r@.len() == 0,
{
    assert(trees(r@).len() == r@.len());
    if 0 <= i < r@.len() {
        assert(trees(r@)[i] == r@[i]@);
    }
}

/// A cache that reads as a catalogue is the answer, with its applications as they are; one that does
/// not leads to the request that would have been made without it.
pub proof fn law_readable_cache_is_the_answer(
    cache: FreshCache,
    text: Option<String>,
    doc: Json,
    listed: Vec<Json>,
    r: CatalogStep,
)
    requires
        call_ensures(FreshCache::loaded, (cache, &text), r),
        call_ensures(catalog_apps, (&doc,), listed),
    ensures
        text matches Some(t) ==> (json_text(t@) == Some(doc@) ==> (r matches CatalogStep::Done(apps)
            && trees(apps@) == trees(listed@))),
        text is None || json_text(text->0@) is None ==> (r matches CatalogStep::Run(f) && f.url@
            == cache.url@ && f.insecure == cache.insecure),
{
    assert(r@ == after_fresh(cache.url@, cache.insecure, doc_in(opt_text(text))));
}

/// What a successful request brings is published as it is, with its applications, where it reads as a
/// catalogue. Otherwise the second address is asked in the same way, and without one the old cache
/// is read.
pub proof fn law_request_that_fails_leads_on(
    fetch: Fetch,
    out: Option<Output>,
    doc: Json,
    listed: Vec<Json>,
    r: CatalogStep,
)
    requires
        call_ensures(Fetch::finished, (fetch, &out), r),
        call_ensures(catalog_apps, (&doc,), listed),
    ensures
        out matches Some(o) ==> (o.code == Some(0i32) && json_text(lossy(o.stdout@)) == Some(doc@)
            ==> (r matches CatalogStep::Publish { body, apps } && body@ == lossy(o.stdout@)
            && trees(apps@) == trees(listed@))),
        out is None || out->0.code != Some(0i32) || json_text(lossy(out->0.stdout@)) is None ==> (
        match fetch.fallback {
            Some(second) => r matches CatalogStep::Run(f) && f.url@ == second@ && f.fallback is None
                && f.insecure == fetch.insecure,
            None => r is ReadStale,
        }),
{
    assert(r@ == after_fetch(
        opt_text(fetch.fallback),
        fetch.insecure,
        answer_in(success_text(out)),
    ));
    if let CatalogStep::Run(f) = r {
        assert(r@->Run_fallback == opt_text(f.fallback));
    }
}

/// A request asks the address for a document, gives up after a quarter of a minute, and fails where
/// the server answers with an error.
pub proof fn law_request_for_the_catalogue(fetch: Fetch, c: CommandLine)
    requires
        call_ensures(Fetch::command, (&fetch,), c),
    ensures
        c@.program == "curl"@,
        c@.args.last() == fetch.url@,
        c@.args.take(7) == seq![
            "-fsSL"@,
            "--max-time"@,
            "15"@,
            "-H"@,
            "Accept: application/json"@,
            "-H"@,
            "User-Agent: bookos-store"@,
        ],
        !fetch.insecure ==> c@.args.len() == 8,
        fetch.insecure ==> c@.args.len() == 9 && c@.args[7] == "-k"@,
{
    assert(c@.args.take(7) =~= fetch_options(false));
}

/// The old cache gives all its applications in order, each object among them marked and otherwise as
/// it is; without a readable cache there are none.
pub proof fn law_old_cache_is_marked(
    text: Option<String>,
    doc: JsonV,
    items: Seq<JsonV>,
    i: int,
    key: Seq<char>,
    r: Vec<Json>,
)
    requires
        call_ensures(stale_catalog, (&text,), r),
        0 <= i < items.len(),
        member(doc, "apps"@) == Some(JsonV::Array(items)),
    ensures
        text matches Some(t) ==> (json_text(t@) == Some(doc) ==> {
            &&& r@.len() == items.len()
            &&& items[i] is Object ==> member(r@[i]@, "_stale"@) == Some(JsonV::Bool(true))
            &&& items[i] is Object && key != "_stale"@ ==> member(r@[i]@, key) == member(
                items[i],
                key,
            )
            &&& !(items[i] is Object) ==> r@[i]@ == items[i]
        }),
        text is None || json_text(text->0@) is None ==> r@.len() == 0,
{
    assert(trees(r@).len() == r@.len());
    if text is Some && json_text(text->0@) == Some(doc) {
        let marked = stale_apps(items);
        assert(trees(r@) == marked);
        assert(marked[i] == stale_app(items[i]));
        assert(trees(r@)[i] == r@[i]@);
        if items[i] is Object {
            law_stale_apps_say_so(items[i], key);
        }
    }
}

/// The address is the one that was asked for, and certificates go unchecked only where that was asked
/// for with `1`.
pub proof fn law_what_was_asked_for(
    asked: Option<String>,
    url: String,
    tls: Option<String>,
    insecure: bool,
)
    requires
        call_ensures(catalog_url, (asked,), url),
        call_ensures(insecure_tls, (&tls,), insecure),
    ensures
        asked matches Some(other) ==> url@ == other@,
        asked is None ==> url@ == "https://bookos.es/api/store.json"@,
        insecure <==> (tls matches Some(v) && v@ == "1"@),
{
}

/// A member can be set on objects and on nothing.
pub proof fn law_what_takes_members(app: Json, r: bool)
    requires
        call_ensures(can_take_members, (&app,), r),
    ensures
        r <==> app is Object || app is Null,
{
    crate::json::law_tree_of_a_value(app, 0);
    lemma_view(app);
}

/// The package of an application is the text of its member `pkg`; without one it is empty.
pub proof fn law_package_of_an_application(app: Json, pkg: Seq<char>, r: String)
    requires
        call_ensures(app_pkg, (&app,), r),
    ensures
        member(app@, "pkg"@) == Some(JsonV::Str(pkg)) ==> r@ == pkg,
        !(member(app@, "pkg"@) matches Some(JsonV::Str(_))) ==> r@.len() == 0,
{
}

/// Listing gives every application in its place, with all its members but the installed version
/// unchanged. That version is the one that the package manager records, whether or not the program
/// is on disk; without a record it is the mark of a program that was put there by hand, and without
/// that program it is nothing. An application that names no package counts as one with an empty name.
pub proof fn law_listing_shows_the_recorded_version(
    apps: Vec<Json>,
    installed: Installed,
    on_disk: Vec<bool>,
    i: int,
    pkg: Seq<char>,
    key: Seq<char>,
    r: Vec<Json>,
)
    requires
        call_ensures(list_apps, (apps, &installed, &on_disk), r),
        0 <= i < apps@.len(),
        apps@[i]@ is Object || apps@[i]@ is Null,
        member(apps@[i]@, "pkg"@) == Some(JsonV::Str(pkg)) || (pkg.len() == 0 && !(member(
            apps@[i]@,
            "pkg"@,
        ) matches Some(JsonV::Str(_)))),
    ensures
        r@.len() == apps@.len(),
        installed@.contains_key(pkg) ==> member(r@[i]@, "installed"@) == Some(
            JsonV::Str(installed@[pkg]),
        ),
        !installed@.contains_key(pkg) && on_disk@[i] ==> member(r@[i]@, "installed"@) == Some(
            JsonV::Str("manual"@),
        ),
        !installed@.contains_key(pkg) && !on_disk@[i] ==> member(r@[i]@, "installed"@) == Some(
            JsonV::Null,
        ),
        key != "installed"@ ==> member(r@[i]@, key) == member(apps@[i]@, key),
{
    assert(pkg_of(apps@[i]@) =~= pkg);
    let version = version_of(installed@, pkg, on_disk@[i]);
    assert(r@[i]@ == with_installed(apps@[i]@, version));
    law_listing_keeps_members(apps@[i]@, version, key);
}

/// A version that is set is a text, and a missing one is nothing; no other member changes.
pub proof fn law_version_is_set(app: Json, version: Option<String>, key: Seq<char>, r: Json)
    requires
        call_ensures(set_installed, (app, version), r),
        app@ is Object || app@ is Null,
    ensures
        version matches Some(v) ==> member(r@, "installed"@) == Some(JsonV::Str(v@)),
        version is None ==> member(r@, "installed"@) == Some(JsonV::Null),
        key != "installed"@ ==> member(r@, key) == member(app@, key),
{
    law_listing_keeps_members(app@, opt_text(version), key);
}

proof fn lemma_app_called(apps: Seq<JsonV>, pkg: Seq<char>)
    ensures
        app_called(apps, pkg) is None ==> forall|k: int|
            0 <= k < apps.len() ==> text_in(member(#[trigger] apps[k], "pkg"@)) != Some(pkg),
        app_called(apps, pkg) matches Some(app) ==> text_in(member(app, "pkg"@)) == Some(pkg)
            && apps.contains(app),
    decreases apps.len(),
{
    if apps.len() > 0 {
        let rest = apps.drop_first();
        lemma_app_called(rest, pkg);
        if text_in(member(apps[0], "pkg"@)) == Some(pkg) {
            assert(apps.contains(apps[0]));
        } else {
            if app_called(rest, pkg) is None {
                assert forall|k: int| 0 <= k < apps.len() implies text_in(
                    member(#[trigger] apps[k], "pkg"@),
                ) != Some(pkg) by {
                    if k > 0 {
                        assert(rest[k - 1] == apps[k]);
                    }
                }
            } else {
                let app = app_called(rest, pkg)->0;
                let k = choose|k: int| 0 <= k < rest.len() && rest[k] == app;
                assert(apps[k + 1] == app);
            }
        }
    }
}

/// The application that is found has the package that was asked for and is the first that has it; none
/// is found exactly where no application has it.
pub proof fn law_first_application_is_found(
    apps: Vec<Json>,
    pkg: &str,
    i: int,
    found: Option<&Json>,
)
    requires
        call_ensures(find_app, (&apps, pkg), found),
        0 <= i < apps@.len(),
    ensures
        found matches Some(app) ==> member(app@, "pkg"@) == Some(JsonV::Str(pkg@)),
        found is None ==> member(apps@[i]@, "pkg"@) != Some(JsonV::Str(pkg@)),
        member(apps@[i]@, "pkg"@) == Some(JsonV::Str(pkg@)) && (forall|k: int|
            0 <= k < i ==> member((#[trigger] apps@[k])@, "pkg"@) != Some(JsonV::Str(pkg@))) ==> (
        found matches Some(app) && app@ == apps@[i]@),
{
    let all = trees(apps@);
    lemma_app_called(all, pkg@);
    assert(all[i] == apps@[i]@);
    if member(apps@[i]@, "pkg"@) == Some(JsonV::Str(pkg@)) && (forall|k: int|
        0 <= k < i ==> member((#[trigger] apps@[k])@, "pkg"@) != Some(JsonV::Str(pkg@))) {
        assert forall|k: int| 0 <= k < i implies text_in(member(#[trigger] all[k], "pkg"@)) != Some(
            pkg@,
        ) by {
            assert(all[k] == apps@[k]@);
        }
        lemma_app_called_skip(all, pkg@, i);
        assert(all.skip(i)[0] == all[i]);
    }
}

/// The page that is opened is that of the application, where it has one, and else the home page, in
/// the browser of the system. Only the last segment of a repository counts.
pub proof fn law_page_of_an_application(
    apps: Vec<Json>,
    repo: &str,
    owner: Seq<char>,
    pkg: &str,
    found: Option<&Json>,
    page: Seq<char>,
    r: CommandLine,
)
    requires
        call_ensures(open_release_page, (&apps, repo), r),
        call_ensures(find_app, (&apps, pkg), found),
        !pkg@.contains('/'),
        repo@ == pkg@ || repo@ == owner.push('/') + pkg@,
    ensures
        r@.program == "xdg-open"@ && r@.args.len() == 1,
        found matches Some(app) ==> (member(app@, "html_url"@) == Some(JsonV::Str(page))
            ==> r@.args[0] == page),
        found matches Some(app) ==> (!(member(app@, "html_url"@) matches Some(JsonV::Str(_)))
            ==> r@.args[0] == "https://bookos.es/"@),
        found is None ==> r@.args[0] == "https://bookos.es/"@,
{
    law_what_follows_the_last(owner, pkg@, '/');
}

/// The members of a release, by their keys.
proof fn lemma_release_members(app: JsonV)
    ensures
        member(release_of(app), "tag_name"@) == Some(member_or(app, "available"@, JsonV::Null)),
        member(release_of(app), "assets"@) == Some(
            member_or(app, "assets"@, JsonV::Array(Seq::empty())),
        ),
        member(release_of(app), "html_url"@) == Some(
            member_or(app, "html_url"@, JsonV::Str(Seq::empty())),
        ),
        member(release_of(app), "body"@) == Some(
            member_or(app, "notes"@, JsonV::Str(Seq::empty())),
        ),
{
    reveal_strlit("tag_name");
    reveal_strlit("assets");
    reveal_strlit("html_url");
    reveal_strlit("body");
    assert("tag_name"@[0] == 't' && "html_url"@[0] == 'h');
    assert("tag_name"@.len() == 8 && "assets"@.len() == 6 && "html_url"@.len() == 8 && "body"@.len()
        == 4);
    let all = release_of(app)->Object_0;
    assert(all.len() == 4);
    law_first_member_is_found(all.take(0), all[0].0, all[0].1, all.skip(1));
    assert(all =~= all.take(0).push(all[0]) + all.skip(1));
    law_first_member_is_found(all.take(1), all[1].0, all[1].1, all.skip(2));
    assert(all =~= all.take(1).push(all[1]) + all.skip(2));
    law_first_member_is_found(all.take(2), all[2].0, all[2].1, all.skip(3));
    assert(all =~= all.take(2).push(all[2]) + all.skip(3));
    law_first_member_is_found(all.take(3), all[3].0, all[3].1, all.skip(4));
    assert(all =~= all.take(3).push(all[3]) + all.skip(4));
}

/// A release tells what the catalogue tells of the application: the version that is available, the
/// files, the page and the notes, each as it stands there. Only what the catalogue does not tell is
/// filled in: no version, no files, and empty texts.
pub proof fn law_release_tells_the_application(
    apps: Vec<Json>,
    repo: &str,
    owner: Seq<char>,
    pkg: &str,
    app: &Json,
    v: JsonV,
    r: Result<Json, String>,
)
    requires
        call_ensures(fetch_release, (&apps, repo), r),
        call_ensures(find_app, (&apps, pkg), Some(app)),
        !pkg@.contains('/'),
        repo@ == pkg@ || repo@ == owner.push('/') + pkg@,
    ensures
        r is Ok,
        r matches Ok(release) ==> {
            &&& member(app@, "available"@) == Some(v) ==> member(release@, "tag_name"@) == Some(v)
            &&& member(app@, "assets"@) == Some(v) ==> member(release@, "assets"@) == Some(v)
            &&& member(app@, "html_url"@) == Some(v) ==> member(release@, "html_url"@) == Some(v)
            &&& member(app@, "notes"@) == Some(v) ==> member(release@, "body"@) == Some(v)
            &&& member(app@, "available"@) is None ==> member(release@, "tag_name"@) == Some(
                JsonV::Null,
            )
            &&& member(app@, "assets"@) is None ==> (member(release@, "assets"@) matches Some(
                JsonV::Array(files),
            ) && files.len() == 0)
            &&& member(app@, "html_url"@) is None ==> (member(release@, "html_url"@) matches Some(
                JsonV::Str(page),
            ) && page.len() == 0)
            &&& member(app@, "notes"@) is None ==> (member(release@, "body"@) matches Some(
                JsonV::Str(notes),
            ) && notes.len() == 0)
        },
{
    law_what_follows_the_last(owner, pkg@, '/');
    lemma_release_members(app@);
}

/// An application that the catalogue does not list has no release, and what is told names it.
pub proof fn law_unlisted_application_has_no_release(
    apps: Vec<Json>,
    repo: &str,
    owner: Seq<char>,
    pkg: &str,
    r: Result<Json, String>,
)
    requires
        call_ensures(fetch_release, (&apps, repo), r),
        call_ensures(find_app, (&apps, pkg), None),
        !pkg@.contains('/'),
        repo@ == pkg@ || repo@ == owner.push('/') + pkg@,
    ensures
        r matches Err(e) && e@ == "App '"@ + pkg@ + "' no está en el catálogo."@,
{
    law_what_follows_the_last(owner, pkg@, '/');
}

/// Where the store keeps what it caches.
pub proof fn law_names_of_the_cache()
    ensures
        CACHE_DIR@ == "bookos-store"@,
        CACHE_FILE@ == "catalog.json"@,
{
}

} // verus!

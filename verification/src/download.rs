//! Downloading a package: the transfer, its progress, and what becomes of the file.

use vstd::prelude::*;
use vstd::string::*;
use crate::json::{json_text, member, parse, Json, JsonV};
use crate::ops::{advanced, OpState, Ops, Pct};
use crate::privileged::{carried_by, track_opt, untrack_opt, without, CANCELLED};
use crate::process::{
    command,
    success,
    success_text,
    succeeded,
    text_of_success,
    on_file,
    CommandLine,
    FileCommand,
    FileCommandV,
    Output,
};
use crate::sha256::{
    bad_digest,
    digest_command,
    expected_sha256,
    is_digest,
    lower_hex,
    normal,
    tool_digest,
    tool_word,
    verdict,
    verify_sha256,
};
use crate::text::{
    all_white,
    chars_of,
    decimal,
    digits_value,
    is_white,
    law_decimal_reads_back,
    law_line_is_read_back,
    law_lower_case_of_ascii,
    law_one_word,
    law_trim_undoes_padding,
    law_words_of_both,
    lines,
    lossy,
    lowercase,
    opt_text,
    parse_u64,
    parsed_u64,
    plain_case,
    same_text,
    signed_decimal,
    signed_text,
    split_lines,
    texts,
    trim,
    trimmed,
    words,
};

verus! {

/// `name` is the bare name of a file: no path leads through it out of the directory it is in.
pub open spec fn safe_name(name: Seq<char>) -> bool {
    name.len() > 0 && !name.contains('/') && name != "."@ && name != ".."@
}

/// Whether `name` is the bare name of a file.
pub fn is_safe_name(name: &str) -> (r: bool)
    ensures
        r == safe_name(name@),
{
    if name.is_empty() || same_text(name, ".") || same_text(name, "..") {
        return false;
    }
    let v = chars_of(name);
    let mut i: usize = 0;
    while i < v.len()
        invariant
            i <= v@.len(),
            v@ == name@,
            forall|k: int| 0 <= k < i ==> #[trigger] v@[k] != '/',
        decreases v@.len() - i,
    {
        if v[i] == '/' {
            assert(name@[i as int] == '/');
            return false;
        }
        i = i + 1;
    }
    true
}

/// The options of the request for the size of a download, before the address.
pub open spec fn head_options(insecure: bool) -> Seq<Seq<char>> {
    let always = seq![
        "-sIL"@,
        "-o"@,
        "/dev/null"@,
        "-w"@,
        "%{size_download}\n%{header_json}"@,
    ];
    if insecure {
        always.push("-k"@)
    } else {
        always
    }
}

/// The command that asks for the size of what is at `url`.
pub fn head_command(url: &str, insecure: bool) -> (r: CommandLine)
    ensures
        r@ == command("curl"@, head_options(insecure).push(url@)),
{
    let c = CommandLine::new("curl").arg("-sIL").arg("-o").arg("/dev/null").arg("-w").arg(
        "%{size_download}\n%{header_json}",
    );
    assert(c@ =~= command("curl"@, head_options(false)));
    let c = if insecure {
        c.arg("-k")
    } else {
        c
    };
    c.arg(url)
}

/// The size in the headers of an answer: the last content length, where it is a number in a text.
pub open spec fn length_in(headers: JsonV) -> Option<u64> {
    match member(headers, "content-length"@) {
        Some(JsonV::Array(items)) => if items.len() > 0 {
            match items.last() {
                JsonV::Str(s) => parsed_u64(s),
                _ => None,
            }
        } else {
            None
        },
        _ => None,
    }
}

/// The size in the headers of an answer.
pub fn content_length(headers: &Json) -> (r: Option<u64>)
    ensures
        r == length_in(headers@),
{
    match headers.get("content-length") {
        Some(list) => match list.as_array() {
            Some(items) => {
                if items.len() == 0 {
                    return None;
                }
                let last = &items[items.len() - 1];
                assert(crate::json::trees(items@).last() == last@);
                match last.as_str() {
                    Some(s) => parse_u64(s),
                    None => None,
                }
            },
            None => None,
        },
        None => None,
    }
}

/// The size in what the size request wrote: its second line holds the headers.
pub open spec fn size_in(written: Seq<char>) -> Option<u64> {
    if lines(written).len() >= 2 {
        match json_text(lines(written)[1]) {
            Some(headers) => length_in(headers),
            None => None,
        }
    } else {
        None
    }
}

/// The second line of a text.
pub fn second_line(written: &str) -> (r: Option<String>)
    ensures
        opt_text(r) == (if lines(written@).len() >= 2 {
            Some(lines(written@)[1])
        } else {
            None
        }),
{
    let ls = split_lines(written);
    if ls.len() >= 2 {
        assert(lines(written@)[1] == ls@[1]@);
        Some(ls[1].clone())
    } else {
        None
    }
}

/// The size of a download, from what the size request left behind.
pub fn head_size(out: &Option<Output>) -> (r: Option<u64>)
    ensures
        r == (match success_text(*out) {
            Some(written) => size_in(written),
            None => None,
        }),
{
    match text_of_success(out) {
        Some(written) => match second_line(written.as_str()) {
            Some(line) => match parse(line.as_str()) {
                Some(headers) => content_length(&headers),
                None => None,
            },
            None => None,
        },
        None => None,
    }
}

/// What is known of the directory that downloads go to.
#[derive(Debug)]
pub enum CacheDir {
    /// The user has no cache directory.
    Unknown,
    /// The directory could not be made, for the reason given.
    Failed(String),
    /// The directory is there.
    Ready,
}

/// Why a download into a file called `filename` is refused, where it is: the directory is looked at
/// before the name.
pub open spec fn refusal(dir: CacheDir, filename: Seq<char>) -> Option<Seq<char>> {
    match dir {
        CacheDir::Unknown => Some("no cache dir"@),
        CacheDir::Failed(cause) => Some(cause@),
        CacheDir::Ready => if safe_name(filename) {
            None
        } else {
            Some("nombre de archivo inválido: "@ + filename)
        },
    }
}

/// A download that was asked for and not refused: the name of its file is safe.
#[derive(Debug)]
pub struct Download {
    url: String,
    name: String,
    sha256: Option<String>,
    op_id: Option<String>,
    insecure: bool,
}

/// What a [`Download`] stands for.
pub struct DownloadV {
    pub url: Seq<char>,
    pub name: Seq<char>,
    pub sha256: Option<Seq<char>>,
    pub op_id: Option<Seq<char>>,
    pub insecure: bool,
}

impl View for Download {
    type V = DownloadV;

    closed spec fn view(&self) -> DownloadV {
        DownloadV {
            url: self.url@,
            name: self.name@,
            sha256: opt_text(self.sha256),
            op_id: opt_text(self.op_id),
            insecure: self.insecure,
        }
    }
}

/// Prepares the download of `url` into a file called `filename` in the directory `dir`; the name
/// comes from the remote catalogue and is not trusted.
pub fn download_pkg(
    dir: CacheDir,
    url: String,
    filename: String,
    sha256: Option<String>,
    op_id: Option<String>,
    insecure: bool,
) -> (r: Result<Download, String>)
    ensures
        match refusal(dir, filename@) {
            None => r matches Ok(d) && d@ == (DownloadV {
                url: url@,
                name: filename@,
                sha256: opt_text(sha256),
                op_id: opt_text(op_id),
                insecure,
            }),
            Some(message) => r matches Err(e) && e@ == message,
        },
{
    match dir {
        CacheDir::Unknown => Err("no cache dir".to_owned()),
        CacheDir::Failed(cause) => Err(cause),
        CacheDir::Ready => if is_safe_name(filename.as_str()) {
            Ok(Download { url, name: filename, sha256, op_id, insecure })
        } else {
            Err("nombre de archivo inválido: ".to_owned().concat(filename.as_str()))
        },
    }
}

/// A transfer of known size; the size is zero where it could not be found out.
#[derive(Debug)]
pub struct Transfer {
    job: Download,
    total: u64,
}

/// What a [`Transfer`] stands for.
pub struct TransferV {
    pub job: DownloadV,
    pub total: u64,
}

impl View for Transfer {
    type V = TransferV;

    closed spec fn view(&self) -> TransferV {
        TransferV { job: self.job@, total: self.total }
    }
}

impl Download {
    #[verifier::type_invariant]
    spec fn inv(self) -> bool {
        safe_name(self.name@)
    }

    /// The address that is fetched.
    pub fn url(&self) -> (r: &str)
        ensures
            r@ == self@.url,
    {
        self.url.as_str()
    }

    /// The name of the file that the download goes to.
    pub fn name(&self) -> (r: &str)
        ensures
            r@ == self@.name,
            safe_name(r@),
    {
        proof {
            use_type_invariant(self);
        }
        self.name.as_str()
    }

    /// The transfer, once the size was asked for.
    pub fn sized(self, size: Option<u64>) -> (r: Transfer)
        ensures
            r@.job == self@,
            r@.total == (match size {
                Some(n) => n,
                None => 0,
            }),
    {
        let total: u64 = match size {
            Some(n) => n,
            None => 0,
        };
        Transfer { job: self, total }
    }
}

/// The options of a transfer, before the path of the file.
pub open spec fn transfer_options(insecure: bool) -> Seq<Seq<char>> {
    if insecure {
        seq!["-fSL"@, "--silent"@, "-k"@, "-o"@]
    } else {
        seq!["-fSL"@, "--silent"@, "-o"@]
    }
}

/// The command of a transfer: after the path of the file comes the address.
pub open spec fn transfer_command(insecure: bool, url: Seq<char>) -> FileCommandV {
    FileCommandV { front: command("curl"@, transfer_options(insecure)), rest: seq![url] }
}

/// The share of a transfer that is done.
pub open spec fn share(done: u64, total: u64) -> Pct {
    if total > 0 {
        Pct::Share { part: done, whole: total }
    } else {
        Pct::Zero
    }
}

/// The operations once a download has come as far as given; a download without a name for its
/// operation, or with an empty one, tells nothing.
pub open spec fn told(
    ops: Map<Seq<char>, OpState>,
    id: Option<Seq<char>>,
    pct: Pct,
    downloaded: u64,
    total: u64,
) -> Map<Seq<char>, OpState> {
    match id {
        Some(id) => if id.len() > 0 {
            advanced(ops, id, pct, downloaded, total)
        } else {
            ops
        },
        None => ops,
    }
}

fn tell(ops: &mut Ops, op_id: &Option<String>, pct: Pct, downloaded: u64, total: u64)
    ensures
        final(ops)@ == told(old(ops)@, opt_text(*op_id), pct, downloaded, total),
{
    if let Some(id) = op_id {
        if !id.as_str().is_empty() {
            ops.set_progress(id.as_str(), pct, downloaded, total);
        }
    }
}

/// A file whose digest is to be taken, with the digest that it must have.
#[derive(Debug)]
pub struct HashCheck {
    expected: String,
    op_id: Option<String>,
    total: u64,
}

/// What a [`HashCheck`] stands for.
pub struct HashCheckV {
    pub expected: Seq<char>,
    pub op_id: Option<Seq<char>>,
    pub total: u64,
}

impl View for HashCheck {
    type V = HashCheckV;

    closed spec fn view(&self) -> HashCheckV {
        HashCheckV { expected: self.expected@, op_id: opt_text(self.op_id), total: self.total }
    }
}

/// A file that is the one which the catalogue means.
#[derive(Debug)]
pub struct Accepted {
    op_id: Option<String>,
    total: u64,
}

/// What an [`Accepted`] stands for.
pub struct AcceptedV {
    pub op_id: Option<Seq<char>>,
    pub total: u64,
}

impl View for Accepted {
    type V = AcceptedV;

    closed spec fn view(&self) -> AcceptedV {
        AcceptedV { op_id: opt_text(self.op_id), total: self.total }
    }
}

/// What follows a transfer.
#[derive(Debug)]
pub enum TransferEnd {
    /// The file is to be removed, and the message told.
    Discard(String),
    /// The digest of the file is to be taken.
    Check(HashCheck),
}

/// What follows the digest of a file.
#[derive(Debug)]
pub enum HashEnd {
    /// The file is to be removed, and the message told.
    Discard(String),
    /// The file is kept.
    Keep(Accepted),
}

/// The published digest of a package, where there is one that is not blank.
pub open spec fn published(sha256: Option<Seq<char>>) -> Option<Seq<char>> {
    match sha256 {
        Some(s) => if trimmed(s).len() > 0 {
            Some(trimmed(s))
        } else {
            None
        },
        None => None,
    }
}

/// After a transfer, the digest that the file must have, or why the file is discarded.
pub open spec fn demanded(
    code: Option<i32>,
    name: Seq<char>,
    sha256: Option<Seq<char>>,
) -> Result<Seq<char>, Seq<char>> {
    if succeeded(code) {
        match published(sha256) {
            Some(s) => if is_digest(normal(s)) {
                Ok(normal(s))
            } else {
                Err(bad_digest())
            },
            None => Err(
                "El catálogo no trae sha256 para "@ + name + "; no se instala sin verificar"@,
            ),
        }
    } else {
        match code {
            Some(n) => Err("Descarga falló (exit "@ + signed_decimal(n as int) + ")"@),
            None => Err(CANCELLED@),
        }
    }
}

/// The published digest of a package, where there is one that is not blank.
fn published_digest(sha256: &Option<String>) -> (r: Option<String>)
    ensures
        opt_text(r) == published(opt_text(*sha256)),
{
    match sha256 {
        Some(s) => {
            let t = trim(s.as_str());
            if t.as_str().is_empty() {
                None
            } else {
                Some(t)
            }
        },
        None => None,
    }
}

/// After a transfer, the digest that the file must have, or why the file is discarded.
pub fn demand_digest(code: Option<i32>, name: &str, sha256: &Option<String>) -> (r: Result<
    String,
    String,
>)
    ensures
        crate::text::result_text(r) == demanded(code, name@, opt_text(*sha256)),
        succeeded(code) && published(opt_text(*sha256)) is Some ==> plain_case(
            trimmed(published(opt_text(*sha256))->0),
        ),
{
    if !success(code) {
        return match code {
            Some(n) => Err(
                "Descarga falló (exit ".to_owned().concat(signed_text(n).as_str()).concat(")"),
            ),
            None => Err(CANCELLED.to_owned()),
        };
    }
    match published_digest(sha256) {
        Some(s) => expected_sha256(s.as_str()),
        None => Err(
            "El catálogo no trae sha256 para ".to_owned().concat(name).concat(
                "; no se instala sin verificar",
            ),
        ),
    }
}

impl Transfer {
    /// The command of this transfer.
    pub fn command(&self) -> (r: FileCommand)
        ensures
            r@ == transfer_command(self@.job.insecure, self@.job.url),
    {
        let c = CommandLine::new("curl").arg("-fSL").arg("--silent");
        let c = if self.job.insecure {
            c.arg("-k")
        } else {
            c
        };
        let front = c.arg("-o");
        assert(front@ =~= command("curl"@, transfer_options(self.job.insecure)));
        let mut rest: Vec<String> = Vec::new();
        rest.push(self.job.url.clone());
        assert(texts(rest@) =~= seq![self.job.url@]);
        FileCommand { front, rest }
    }

    /// The message where the transfer could not be started.
    pub fn spawn_failure(&self, cause: &str) -> (r: String)
        ensures
            r@ == "curl falló: "@ + cause@,
    {
        "curl falló: ".to_owned().concat(cause)
    }

    /// Records the process of the transfer, so that it can be cancelled.
    pub fn started(&self, ops: &mut Ops, pid: u32)
        ensures
            final(ops)@ == carried_by(old(ops)@, self@.job.op_id, pid),
    {
        track_opt(ops, &self.job.op_id, pid);
    }

    /// Tells how far the transfer has come, where the file has `done` bytes.
    pub fn polled(&self, ops: &mut Ops, done: u64)
        ensures
            final(ops)@ == told(
                old(ops)@,
                self@.job.op_id,
                share(done, self@.total),
                done,
                self@.total,
            ),
    {
        let pct = if self.total > 0 {
            Pct::Share { part: done, whole: self.total }
        } else {
            Pct::Zero
        };
        tell(ops, &self.job.op_id, pct, done, self.total);
    }

    /// What follows once the transfer has ended with `code`, which it lacks where it was cancelled.
    pub fn ended(self, ops: &mut Ops, code: Option<i32>) -> (r: TransferEnd)
        ensures
            match demanded(code, self@.job.name, self@.job.sha256) {
                Ok(digest) => {
                    &&& final(ops)@ == old(ops)@
                    &&& r matches TransferEnd::Check(c)
                    &&& c@ == (HashCheckV {
                        expected: digest,
                        op_id: self@.job.op_id,
                        total: self@.total,
                    })
                },
                Err(message) => {
                    &&& final(ops)@ == without(old(ops)@, self@.job.op_id)
                    &&& r matches TransferEnd::Discard(m)
                    &&& m@ == message
                },
            },
            succeeded(code) && published(self@.job.sha256) is Some ==> plain_case(
                trimmed(published(self@.job.sha256)->0),
            ),
    {
        match demand_digest(code, self.job.name.as_str(), &self.job.sha256) {
            Ok(expected) => TransferEnd::Check(
                HashCheck { expected, op_id: self.job.op_id, total: self.total },
            ),
            Err(message) => {
                untrack_opt(ops, &self.job.op_id);
                TransferEnd::Discard(message)
            },
        }
    }
}

impl HashCheck {
    #[verifier::type_invariant]
    spec fn inv(self) -> bool {
        is_digest(self.expected@)
    }

    /// What follows once [`crate::sha256::digest_tool`] was run on the file, or could not be.
    pub fn hashed(self, ops: &mut Ops, run: &Result<Output, String>) -> (r: HashEnd)
        ensures
            match verdict(self@.expected, *run) {
                Ok(_) => {
                    &&& final(ops)@ == old(ops)@
                    &&& r matches HashEnd::Keep(a)
                    &&& a@ == (AcceptedV { op_id: self@.op_id, total: self@.total })
                },
                Err(message) => {
                    &&& final(ops)@ == without(old(ops)@, self@.op_id)
                    &&& r matches HashEnd::Discard(m)
                    &&& m@ == message
                },
            },
            run matches Ok(out) ==> (succeeded(out.code) ==> plain_case(
                tool_word(lossy(out.stdout@)),
            )),
    {
        proof {
            use_type_invariant(&self);
        }
        match verify_sha256(self.expected.as_str(), run) {
            Ok(_) => HashEnd::Keep(Accepted { op_id: self.op_id, total: self.total }),
            Err(message) => {
                untrack_opt(ops, &self.op_id);
                HashEnd::Discard(message)
            },
        }
    }
}

impl Accepted {
    /// Tells that the download is complete, where the file has `size` bytes.
    pub fn completed(&self, ops: &mut Ops, size: u64)
        ensures
            final(ops)@ == told(
                old(ops)@,
                self@.op_id,
                Pct::Full,
                size,
                if self@.total > 0 {
                    self@.total
                } else {
                    size
                },
            ),
    {
        let total: u64 = if self.total > 0 {
            self.total
        } else {
            size
        };
        tell(ops, &self.op_id, Pct::Full, size, total);
    }

    /// Forgets the operation of the download.
    pub fn closed(self, ops: &mut Ops)
        ensures
            final(ops)@ == without(old(ops)@, self@.op_id),
    {
        untrack_opt(ops, &self.op_id);
    }
}

/// A downloaded file is kept exactly where the transfer succeeded, the catalogue publishes a digest,
/// and the digest that was taken of the file is that one. In every other case it is discarded with a
/// message.
pub proof fn law_only_verified_files_are_kept(
    code: Option<i32>,
    name: Seq<char>,
    sha256: Option<Seq<char>>,
    run: Result<Output, String>,
)
    ensures
        (demanded(code, name, sha256) matches Ok(digest) && verdict(digest, run) is Ok) <==> {
            &&& succeeded(code)
            &&& published(sha256) matches Some(digest)
            &&& is_digest(normal(digest))
            &&& run matches Ok(out)
            &&& succeeded(out.code)
            &&& tool_digest(lossy(out.stdout@)) == normal(digest)
        },
{
}

/// Without a published digest no file is kept: the transfer ends with a message.
pub proof fn law_no_digest_no_package(
    code: Option<i32>,
    name: Seq<char>,
    sha256: Option<Seq<char>>,
)
    ensures
        published(sha256) is None ==> demanded(code, name, sha256) is Err,
{
}

/// A download stays in its directory: under any directory, the safe name of a file is all that
/// follows the last separator, and it is no step to that directory or to the one above.
pub proof fn law_download_stays_in_its_directory(directory: Seq<char>, name: Seq<char>)
    requires
        safe_name(name),
    ensures
        crate::text::after_last(directory.push('/') + name, '/') == name,
        name != "."@,
        name != ".."@,
        name.len() > 0,
{
    crate::catalog::law_last_segment_counts(directory, name);
}

/// A transfer fetches the address that was asked for, into the file that it is given: whatever the
/// path of that file, the two are its last arguments. The digest is then taken of one file alone.
pub proof fn law_transfer_of_the_asked_address(insecure: bool, url: Seq<char>, path: Seq<char>)
    ensures
        on_file(transfer_command(insecure, url), path) == command(
            "curl"@,
            transfer_options(insecure).push(path).push(url),
        ),
        transfer_options(insecure).last() == "-o"@,
        on_file(digest_command(), path) == command("sha256sum"@, seq![path]),
{
    assert(transfer_options(insecure).push(path) + seq![url] =~= transfer_options(insecure).push(
        path,
    ).push(url));
    assert(Seq::<Seq<char>>::empty().push(path) + Seq::<Seq<char>>::empty() =~= seq![path]);
}

/// A download that was tracked and then closed has ended, whatever progress was told meanwhile.
pub proof fn law_closed_download_has_ended(
    ops: Map<Seq<char>, OpState>,
    id: Seq<char>,
    pid: u32,
    done: u64,
    total: u64,
    size: u64,
)
    ensures
        ({
            let running = told(
                carried_by(ops, Some(id), pid),
                Some(id),
                share(done, total),
                done,
                total,
            );
            let complete = told(running, Some(id), Pct::Full, size, total);
            &&& crate::ops::report(running, id) is Active
            &&& crate::ops::carrier(running, id) == Some(pid)
            &&& crate::ops::report(without(running, Some(id)), id) == crate::ops::Progress::Ended
            &&& without(complete, Some(id)) == ops.remove(id)
        }),
{
    let running = told(carried_by(ops, Some(id), pid), Some(id), share(done, total), done, total);
    let complete = told(running, Some(id), Pct::Full, size, total);
    assert(without(complete, Some(id)) =~= ops.remove(id));
}

/// Every share that is told of a transfer is a share of something: tracking, progress and the end of
/// downloads never bring in a share of nothing.
pub proof fn law_shares_are_of_something(
    ops: Map<Seq<char>, OpState>,
    id: Option<Seq<char>>,
    pid: u32,
    done: u64,
    total: u64,
    size: u64,
)
    requires
        sound_shares(ops),
    ensures
        sound_shares(carried_by(ops, id, pid)),
        sound_shares(told(ops, id, share(done, total), done, total)),
        sound_shares(told(ops, id, Pct::Full, size, total)),
        sound_shares(without(ops, id)),
{
}

/// No known operation tells a share of nothing.
pub open spec fn sound_shares(ops: Map<Seq<char>, OpState>) -> bool {
    forall|id: Seq<char>| #[trigger]
        ops.contains_key(id) ==> (ops[id].pct matches Pct::Share { whole, .. } ==> whole > 0)
}

/// Certificates are checked in every request of a download unless the opposite was asked for: the
/// option that turns the check off is an argument exactly where it was asked for. An address or a
/// path that is itself written like that option tells nothing, and is left out.
pub proof fn law_no_silent_insecure_download(insecure: bool, url: Seq<char>, path: Seq<char>)
    requires
        url != "-k"@,
        path != "-k"@,
    ensures
        head_options(insecure).push(url).contains("-k"@) <==> insecure,
        on_file(transfer_command(insecure, url), path).args.contains("-k"@) <==> insecure,
{
    reveal_strlit("-k");
    reveal_strlit("-sIL");
    reveal_strlit("-o");
    reveal_strlit("/dev/null");
    reveal_strlit("-w");
    reveal_strlit("%{size_download}\n%{header_json}");
    reveal_strlit("-fSL");
    reveal_strlit("--silent");
    assert("-k"@[1] == 'k' && "-o"@[1] == 'o' && "-w"@[1] == 'w');
    let head = head_options(insecure).push(url);
    let transfer = on_file(transfer_command(insecure, url), path).args;
    if insecure {
        assert(head[5] == "-k"@);
        assert(transfer[2] == "-k"@);
    }
}

/// A name is safe exactly where it is not empty, leads through no directory, and is neither the
/// directory itself nor the one above.
pub proof fn law_safe_names(name: &str, r: bool)
    requires
        call_ensures(is_safe_name, (name,), r),
    ensures
        name@.len() == 0 ==> !r,
        name@.contains('/') ==> !r,
        name@ == "."@ || name@ == ".."@ ==> !r,
        name@.len() > 0 && !name@.contains('/') && name@ != "."@ && name@ != ".."@ ==> r,
        name@.len() > 2 && !name@.contains('/') ==> r,
{
    reveal_strlit(".");
    reveal_strlit("..");
}

/// A download that is asked for is taken as it was asked for where its directory is there and its
/// name is safe, and only there. The directory is looked at first.
pub proof fn law_download_as_asked_for(
    dir: CacheDir,
    url: String,
    filename: String,
    sha256: Option<String>,
    op_id: Option<String>,
    insecure: bool,
    name: &str,
    safe: bool,
    r: Result<Download, String>,
)
    requires
        call_ensures(download_pkg, (dir, url, filename, sha256, op_id, insecure), r),
        call_ensures(is_safe_name, (name,), safe),
        name@ == filename@,
    ensures
        r is Ok <==> dir is Ready && safe,
        r matches Ok(d) ==> d@.url == url@ && d@.name == filename@ && d@.sha256 == opt_text(sha256)
            && d@.op_id == opt_text(op_id) && d@.insecure == insecure,
        r matches Err(e) ==> (match dir {
            CacheDir::Unknown => e@ == "no cache dir"@,
            CacheDir::Failed(cause) => e@ == cause@,
            CacheDir::Ready => e@ == "nombre de archivo inválido: "@ + filename@,
        }),
{
}

/// The request for the size asks for the headers of the address alone, and turning off the check of
/// certificates is all that can change in it.
pub proof fn law_size_request(url: &str, checked: CommandLine, unchecked: CommandLine)
    requires
        call_ensures(head_command, (url, false), checked),
        call_ensures(head_command, (url, true), unchecked),
    ensures
        checked@.program == "curl"@ && unchecked@.program == "curl"@,
        checked@.args == seq![
            "-sIL"@,
            "-o"@,
            "/dev/null"@,
            "-w"@,
            "%{size_download}\n%{header_json}"@,
            url@,
        ],
        unchecked@.args == checked@.args.insert(5, "-k"@),
{
    assert(checked@.args =~= seq![
        "-sIL"@,
        "-o"@,
        "/dev/null"@,
        "-w"@,
        "%{size_download}\n%{header_json}"@,
        url@,
    ]);
    assert(unchecked@.args =~= checked@.args.insert(5, "-k"@));
}

/// The size is the last content length in the headers, read as the number that it writes. Headers
/// without one, or with one that is no number in a text, tell no size.
pub proof fn law_last_content_length_counts(
    headers: Json,
    earlier: Seq<JsonV>,
    last: JsonV,
    n: u64,
    r: Option<u64>,
)
    requires
        call_ensures(content_length, (&headers,), r),
    ensures
        member(headers@, "content-length"@) == Some(JsonV::Array(earlier.push(last))) && last
            == JsonV::Str(decimal(n as nat)) ==> r == Some(n),
        member(headers@, "content-length"@) == Some(JsonV::Array(earlier.push(last))) && !(
        last is Str) ==> r is None,
        member(headers@, "content-length"@) == Some(JsonV::Array(earlier.push(last)))
            && last is Str ==> r == parsed_u64(last->Str_0),
        member(headers@, "content-length"@) == Some(JsonV::Array(Seq::empty())) ==> r is None,
        member(headers@, "content-length"@) is None ==> r is None,
        member(headers@, "content-length"@) matches Some(v) ==> (!(v is Array) ==> r is None),
{
    law_decimal_reads_back(n as nat);
    assert(earlier.push(last).last() == last);
}

/// The second line is what stands between the first two line ends, or after the first where it is
/// the last.
pub proof fn law_second_line(
    written: &str,
    first: Seq<char>,
    second: Seq<char>,
    rest: Seq<char>,
    r: Option<String>,
)
    requires
        call_ensures(second_line, (written,), r),
        !first.contains('\n') && !second.contains('\n'),
        first.len() > 0 ==> first.last() != '\r',
        second.len() > 0 ==> second.last() != '\r',
    ensures
        written@ == first.push('\n') + (second.push('\n') + rest) ==> (r matches Some(t) && t@
            == second),
        written@ == first.push('\n') + second && second.len() > 0 ==> (r matches Some(t) && t@
            == second),
        written@ == first ==> r is None,
{
    law_line_is_read_back(first, second.push('\n') + rest);
    law_line_is_read_back(second, rest);
    law_line_is_read_back(first, second);
    if written@ == first.push('\n') + (second.push('\n') + rest) {
        assert(lines(written@)[1] == second);
    }
    if written@ == first.push('\n') + second && second.len() > 0 {
        assert(lines(written@)[1] == second);
    }
}

/// The size comes from the second line of what a successful request wrote, read as headers; a request
/// that failed tells no size.
pub proof fn law_size_of_a_download(
    out: Option<Output>,
    text: &str,
    second: Option<String>,
    headers: Json,
    length: Option<u64>,
    r: Option<u64>,
)
    requires
        call_ensures(head_size, (&out,), r),
        call_ensures(second_line, (text,), second),
        call_ensures(content_length, (&headers,), length),
    ensures
        out matches Some(o) ==> (o.code == Some(0i32) && text@ == lossy(o.stdout@) ==> (
        match second {
            Some(line) => (json_text(line@) == Some(headers@) ==> r == length) && (json_text(
                line@,
            ) is None ==> r is None),
            None => r is None,
        })),
        !(out matches Some(o) && o.code == Some(0i32)) ==> r is None,
{
}

/// A transfer is of the download that it was made for; its size is zero where it is not known.
pub proof fn law_size_of_a_transfer(d: Download, size: Option<u64>, r: Transfer)
    requires
        call_ensures(Download::sized, (d, size), r),
    ensures
        r@.job == d@,
        size matches Some(n) ==> r@.total == n,
        size is None ==> r@.total == 0,
{
}

/// The file of a download has the name that was asked for, and its address is the one that was.
pub proof fn law_name_and_address(d: Download, name: &str, url: &str)
    requires
        call_ensures(Download::name, (&d,), name),
        call_ensures(Download::url, (&d,), url),
    ensures
        name@ == d@.name && url@ == d@.url,
        name@.len() > 0 && !name@.contains('/') && name@ != "."@ && name@ != ".."@,
{
}

/// The transfer writes what is at the address of the download to the file that it is given, and
/// leaves certificates unchecked exactly where that was asked for.
pub proof fn law_command_of_a_transfer(t: Transfer, path: Seq<char>, c: FileCommand)
    requires
        call_ensures(Transfer::command, (&t,), c),
    ensures
        on_file(c@, path).program == "curl"@,
        !t@.job.insecure ==> on_file(c@, path).args == seq![
            "-fSL"@,
            "--silent"@,
            "-o"@,
            path,
            t@.job.url,
        ],
        t@.job.insecure ==> on_file(c@, path).args == seq![
            "-fSL"@,
            "--silent"@,
            "-k"@,
            "-o"@,
            path,
            t@.job.url,
        ],
        c.front@.args.last() == "-o"@ && c.front@.args[0] == "-fSL"@,
        c.rest@.len() == 1 && c.rest@[0]@ == t@.job.url,
{
    if t@.job.insecure {
        assert(on_file(c@, path).args =~= seq![
            "-fSL"@,
            "--silent"@,
            "-k"@,
            "-o"@,
            path,
            t@.job.url,
        ]);
    } else {
        assert(on_file(c@, path).args =~= seq!["-fSL"@, "--silent"@, "-o"@, path, t@.job.url]);
    }
    assert(c@.rest.len() == 1 && c@.rest[0] == t@.job.url);
    assert(texts(c.rest@)[0] == c.rest@[0]@);
}

/// A transfer is carried by its process, where it has a name, and no other operation changes.
pub proof fn law_started_transfer_can_be_cancelled(
    t: Transfer,
    ops: &mut Ops,
    pid: u32,
    other: Seq<char>,
    u: (),
)
    requires
        call_ensures(Transfer::started, (&t, ops, pid), u),
    ensures
        t@.job.op_id matches Some(id) ==> final(ops)@.contains_key(id) && final(ops)@[id].pid
            == Some(pid),
        t@.job.op_id != Some(other) ==> final(ops)@.contains_key(other) == old(
            ops,
        )@.contains_key(other) && (old(ops)@.contains_key(other) ==> final(ops)@[other] == old(
            ops,
        )@[other]),
{
}

/// While a transfer runs, what is told is how many bytes the file has of how many, and a share of the
/// whole where that is known; the process stays. A transfer without a name tells nothing, and no
/// other operation changes.
pub proof fn law_told_while_the_transfer_runs(
    t: Transfer,
    ops: &mut Ops,
    done: u64,
    other: Seq<char>,
    u: (),
)
    requires
        call_ensures(Transfer::polled, (&t, ops, done), u),
    ensures
        t@.job.op_id matches Some(id) ==> (id.len() > 0 ==> {
            &&& final(ops)@.contains_key(id)
            &&& final(ops)@[id].downloaded == done
            &&& final(ops)@[id].total == t@.total
            &&& t@.total > 0 ==> final(ops)@[id].pct == (Pct::Share { part: done, whole: t@.total })
            &&& t@.total == 0 ==> final(ops)@[id].pct == Pct::Zero
            &&& old(ops)@.contains_key(id) ==> final(ops)@[id].pid == old(ops)@[id].pid
        }),
        t@.job.op_id is None || t@.job.op_id->0.len() == 0 ==> final(ops)@ == old(ops)@,
        t@.job.op_id != Some(other) ==> final(ops)@.contains_key(other) == old(
            ops,
        )@.contains_key(other) && (old(ops)@.contains_key(other) ==> final(ops)@[other] == old(
            ops,
        )@[other]),
{
}

/// A transfer that failed tells its exit code, and one that was cancelled says so; either way the
/// file is discarded and the operation forgotten, and no other one changes. So it goes for a transfer
/// whose package has no digest to compare with.
pub proof fn law_failed_transfer_is_discarded(
    t: Transfer,
    ops: &mut Ops,
    code: Option<i32>,
    other: Seq<char>,
    r: TransferEnd,
)
    requires
        call_ensures(Transfer::ended, (t, ops, code), r),
        code != Some(0i32) || t@.job.sha256 is None || trimmed(t@.job.sha256->0).len() == 0,
    ensures
        r is Discard,
        t@.job.op_id matches Some(id) ==> !final(ops)@.contains_key(id),
        t@.job.op_id != Some(other) ==> final(ops)@.contains_key(other) == old(
            ops,
        )@.contains_key(other) && (old(ops)@.contains_key(other) ==> final(ops)@[other] == old(
            ops,
        )@[other]),
        code is None ==> (r matches TransferEnd::Discard(m) && m@ == "__cancelled__"@),
        code matches Some(n) ==> (n > 0 ==> (r matches TransferEnd::Discard(m) && exists|
            digits: Seq<char>,
        |
            digits_value(digits) == n && m@ == #[trigger] ("Descarga falló (exit "@ + digits
                + ")"@))),
        code matches Some(n) ==> (n != 0 ==> (r matches TransferEnd::Discard(m) && m@
            == "Descarga falló (exit "@ + signed_decimal(n as int) + ")"@)),
        code == Some(0i32) ==> (r matches TransferEnd::Discard(m) && m@
            == "El catálogo no trae sha256 para "@ + t@.job.name
            + "; no se instala sin verificar"@),
{
    if let Some(n) = code {
        if n > 0 {
            law_decimal_reads_back(n as nat);
            let digits = decimal(n as nat);
            assert(r matches TransferEnd::Discard(m) && m@ == "Descarga falló (exit "@ + digits
                + ")"@);
        }
    }
}

/// After a transfer that succeeded, the digest that is demanded is the one that the published text is
/// taken as; where it is taken as none, the file is discarded with that message and the operation
/// forgotten.
pub proof fn law_demanded_digest_is_the_published_one(
    t: Transfer,
    ops: &mut Ops,
    text: &str,
    taken: Result<String, String>,
    r: TransferEnd,
)
    requires
        call_ensures(Transfer::ended, (t, ops, Some(0i32)), r),
        call_ensures(expected_sha256, (text,), taken),
        t@.job.sha256 is Some,
        text@ == trimmed(t@.job.sha256->0),
        text@.len() > 0,
    ensures
        taken matches Ok(digest) ==> (r matches TransferEnd::Check(c) && c@.expected == digest@),
        taken matches Err(why) ==> (r matches TransferEnd::Discard(m) && m@ == why@),
        taken is Err ==> (t@.job.op_id matches Some(id) ==> !final(ops)@.contains_key(id)),
{
}

/// A transfer that succeeded leads to the check of exactly the digest that the catalogue publishes,
/// whatever its digits are, and the operation goes on.
pub proof fn law_good_transfer_is_checked(
    t: Transfer,
    ops: &mut Ops,
    a: Seq<char>,
    digest: Seq<char>,
    b: Seq<char>,
    r: TransferEnd,
)
    requires
        call_ensures(Transfer::ended, (t, ops, Some(0i32)), r),
        all_white(a),
        all_white(b),
        digest.len() == 64,
        lower_hex(digest),
        t@.job.sha256 == Some(a + digest + b),
    ensures
        r matches TransferEnd::Check(c) && c@.expected == digest && c@.op_id == t@.job.op_id
            && c@.total == t@.total,
        final(ops)@ == old(ops)@,
{
    lemma_plain_digest(a, digest, b);
}

proof fn lemma_plain_digest(a: Seq<char>, digest: Seq<char>, b: Seq<char>)
    requires
        all_white(a),
        all_white(b),
        digest.len() == 64,
        lower_hex(digest),
    ensures
        trimmed(a + digest + b) == digest,
        trimmed(digest) == digest,
        words(digest) == seq![digest],
        is_digest(digest),
        plain_case(digest) ==> lowercase(digest) == digest,
{
    let none = Seq::<char>::empty();
    assert forall|i: int| 0 <= i < digest.len() implies ('0' <= #[trigger] digest[i] <= '9' || 'a'
        <= digest[i] <= 'f') by {
        reveal_strlit("0123456789abcdef");
        let k = choose|k: int|
            0 <= k < "0123456789abcdef"@.len() && "0123456789abcdef"@[k] == digest[i];
        assert("0123456789abcdef"@.contains(digest[i]));
        assert(0 <= k < 16);
    }
    law_trim_undoes_padding(a, digest, b);
    law_trim_undoes_padding(none, digest, none);
    assert(none + digest + none =~= digest);
    law_one_word(digest);
    if plain_case(digest) {
        law_lower_case_of_ascii(digest, 0);
    }
}

/// A file is kept where the tool prints the digest that it must have, and discarded where it prints
/// another one, fails or could not be run. A kept file leaves the operations as they are; with a
/// discarded one its operation is forgotten, and no other one changes.
pub proof fn law_file_is_kept_by_its_digest(
    c: HashCheck,
    ops: &mut Ops,
    run: Result<Output, String>,
    printed: Seq<char>,
    rest: Seq<char>,
    other: Seq<char>,
    expected: &str,
    checked: Result<(), String>,
    r: HashEnd,
)
    requires
        call_ensures(HashCheck::hashed, (c, ops, &run), r),
        call_ensures(verify_sha256, (expected, &run), checked),
        expected@ == c@.expected,
        printed.len() == 64,
        lower_hex(printed),
        rest.len() == 0 || is_white(rest[0]),
    ensures
        run matches Ok(out) ==> (out.code == Some(0i32) && lossy(out.stdout@) == printed + rest ==> (
        r is Keep <==> printed == c@.expected)),
        run matches Ok(out) ==> (out.code != Some(0i32) ==> r is Discard),
        run is Err ==> r is Discard,
        checked is Ok ==> r is Keep,
        checked matches Err(why) ==> (r matches HashEnd::Discard(m) && m@ == why@),
        r matches HashEnd::Keep(k) ==> k@.op_id == c@.op_id && k@.total == c@.total && final(ops)@
            == old(ops)@,
        r is Discard ==> (c@.op_id matches Some(id) ==> !final(ops)@.contains_key(id)),
        c@.op_id != Some(other) ==> final(ops)@.contains_key(other) == old(
            ops,
        )@.contains_key(other) && (old(ops)@.contains_key(other) ==> final(ops)@[other] == old(
            ops,
        )@[other]),
{
    let none = Seq::<char>::empty();
    lemma_plain_digest(none, printed, none);
    law_words_of_both(printed, rest);
    assert((seq![printed] + words(rest))[0] == printed);
}

/// A complete download tells that all of it is there: as many bytes as the file has, of as many as
/// were announced, or of the file itself where nothing was.
pub proof fn law_told_when_complete(
    k: Accepted,
    ops: &mut Ops,
    size: u64,
    other: Seq<char>,
    u: (),
)
    requires
        call_ensures(Accepted::completed, (&k, ops, size), u),
    ensures
        k@.op_id matches Some(id) ==> (id.len() > 0 ==> {
            &&& final(ops)@.contains_key(id)
            &&& final(ops)@[id].pct == Pct::Full
            &&& final(ops)@[id].downloaded == size
            &&& k@.total > 0 ==> final(ops)@[id].total == k@.total
            &&& k@.total == 0 ==> final(ops)@[id].total == size
        }),
        k@.op_id != Some(other) ==> final(ops)@.contains_key(other) == old(
            ops,
        )@.contains_key(other) && (old(ops)@.contains_key(other) ==> final(ops)@[other] == old(
            ops,
        )@[other]),
{
}

/// A closed download is forgotten, and no other operation changes.
pub proof fn law_closed_download_is_forgotten(
    k: Accepted,
    ops: &mut Ops,
    other: Seq<char>,
    u: (),
)
    requires
        call_ensures(Accepted::closed, (k, ops), u),
    ensures
        k@.op_id matches Some(id) ==> !final(ops)@.contains_key(id),
        k@.op_id != Some(other) ==> final(ops)@.contains_key(other) == old(
            ops,
        )@.contains_key(other) && (old(ops)@.contains_key(other) ==> final(ops)@[other] == old(
            ops,
        )@[other]),
{
}

/// A transfer that could not be started tells why.
pub proof fn law_transfer_tells_why_it_did_not_start(t: Transfer, cause: &str, r: String)
    requires
        call_ensures(Transfer::spawn_failure, (&t, cause), r),
    ensures
        r@ == "curl falló: "@ + cause@,
{
}

} // verus!

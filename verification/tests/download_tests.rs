use bookos_store::download::{
    content_length, demand_digest, download_pkg, head_command, head_size, is_safe_name,
    second_line, CacheDir, Download, HashEnd, Transfer, TransferEnd,
};
use bookos_store::json::parse;
use bookos_store::ops::{Ops, Pct, Progress};
use bookos_store::process::Output;

const DIGEST: &str = "e3b0c44298fc1c149afbf4c8996fb92427ae41e4649b934ca495991b7852b855";

fn wrote(code: i32, stdout: &str) -> Output {
    Output { code: Some(code), stdout: stdout.as_bytes().to_vec(), stderr: Vec::new() }
}

fn job(sha256: Option<&str>, op: Option<&str>, insecure: bool) -> Download {
    download_pkg(
        CacheDir::Ready,
        "https://x/f.rpm".to_string(),
        "f.rpm".to_string(),
        sha256.map(String::from),
        op.map(String::from),
        insecure,
    )
    .unwrap()
}

fn transfer(sha256: Option<&str>, op: Option<&str>, size: Option<u64>) -> Transfer {
    job(sha256, op, false).sized(size)
}

#[test]
fn only_bare_names_are_safe() {
    assert!(is_safe_name("a.rpm"));
    assert!(is_safe_name("..a"));
    assert!(is_safe_name("a\\b"));
    for bad in ["", ".", "..", "/a", "a/", "a/b", "../a", "./a"] {
        assert!(!is_safe_name(bad), "{}", bad);
        assert_eq!(
            download_pkg(CacheDir::Ready, String::new(), bad.to_string(), None, None, false)
                .unwrap_err(),
            format!("nombre de archivo inválido: {}", bad)
        );
        let standard = std::path::Path::new(bad).file_name().and_then(|n| n.to_str());
        assert_ne!(standard, Some(bad));
    }
}

#[test]
fn the_size_is_in_the_headers() {
    assert_eq!(
        head_command("u", true).args,
        vec!["-sIL", "-o", "/dev/null", "-w", "%{size_download}\n%{header_json}", "-k", "u"]
    );
    assert_eq!(head_command("u", false).args.len(), 6);
    let headers = "0\n{\"content-length\":[\"10\",\"2048\"]}\n";
    assert_eq!(head_size(&Some(wrote(0, headers))), Some(2048));
    assert_eq!(head_size(&Some(wrote(22, headers))), None);
    assert_eq!(head_size(&Some(wrote(0, "0\n"))), None);
    assert_eq!(head_size(&Some(wrote(0, "0\n{\n"))), None);
    assert_eq!(head_size(&None), None);
    assert_eq!(second_line("a\nb\nc"), Some("b".to_string()));
    for none in [
        "{}", "[]", "{\"content-length\":[]}", "{\"content-length\":[7]}",
        "{\"content-length\":[\"x\"]}", "{\"content-length\":\"7\"}",
    ] {
        assert_eq!(content_length(&parse(none).unwrap()), None, "{}", none);
    }
}

#[test]
fn the_transfer_checks_certificates_unless_told() {
    let t = transfer(None, None, Some(10));
    assert_eq!(job(None, None, false).name(), "f.rpm");
    assert_eq!(job(None, None, false).url(), "https://x/f.rpm");
    assert_eq!(t.command().front.program, "curl");
    assert_eq!(t.command().front.args, vec!["-fSL", "--silent", "-o"]);
    assert_eq!(t.command().rest, vec!["https://x/f.rpm"]);
    let t = job(None, None, true).sized(None);
    assert_eq!(t.command().front.args, vec!["-fSL", "--silent", "-k", "-o"]);
    assert_eq!(t.spawn_failure("no"), "curl falló: no");
}

#[test]
fn progress_is_told_while_the_transfer_runs() {
    let mut ops = Ops::new();
    let t = transfer(None, Some("op"), Some(10));
    t.started(&mut ops, 5);
    t.polled(&mut ops, 4);
    let pct = Pct::Share { part: 4, whole: 10 };
    assert_eq!(ops.progress("op"), Progress::Active { pct, downloaded: 4, total: 10 });
    let unknown = transfer(None, Some("other"), None);
    unknown.polled(&mut ops, 4);
    assert_eq!(
        ops.progress("other"),
        Progress::Active { pct: Pct::Zero, downloaded: 4, total: 0 }
    );
    transfer(None, Some(""), Some(10)).polled(&mut ops, 4);
    assert_eq!(ops.progress(""), Progress::Ended);
}

#[test]
fn a_failed_transfer_is_discarded_and_forgotten() {
    let mut ops = Ops::new();
    let t = transfer(Some(DIGEST), Some("op"), None);
    t.started(&mut ops, 5);
    match t.ended(&mut ops, Some(22)) {
        TransferEnd::Discard(m) => assert_eq!(m, "Descarga falló (exit 22)"),
        other => panic!("{:?}", other),
    }
    assert_eq!(ops.progress("op"), Progress::Ended);
    match transfer(Some(DIGEST), None, None).ended(&mut ops, None) {
        TransferEnd::Discard(m) => assert_eq!(m, "__cancelled__"),
        other => panic!("{:?}", other),
    }
}

#[test]
fn no_digest_no_package() {
    let message = "El catálogo no trae sha256 para f; no se instala sin verificar".to_string();
    assert_eq!(demand_digest(Some(0), "f", &None), Err(message.clone()));
    assert_eq!(demand_digest(Some(0), "f", &Some(" \n".to_string())), Err(message));
    assert_eq!(
        demand_digest(Some(0), "f", &Some("abc".to_string())),
        Err("El catálogo no trae un sha256 válido para este paquete.".to_string())
    );
    assert_eq!(
        demand_digest(Some(0), "f", &Some(format!(" {}", DIGEST.to_uppercase()))),
        Ok(DIGEST.to_string())
    );
}

#[test]
fn only_a_matching_file_is_kept() {
    let mut ops = Ops::new();
    let t = transfer(Some(DIGEST), Some("op"), None);
    t.started(&mut ops, 5);
    let check = match t.ended(&mut ops, Some(0)) {
        TransferEnd::Check(c) => c,
        other => panic!("{:?}", other),
    };
    let kept = match check.hashed(&mut ops, &Ok(wrote(0, DIGEST))) {
        HashEnd::Keep(a) => a,
        other => panic!("{:?}", other),
    };
    kept.completed(&mut ops, 77);
    assert_eq!(
        ops.progress("op"),
        Progress::Active { pct: Pct::Full, downloaded: 77, total: 77 }
    );
    kept.closed(&mut ops);
    assert_eq!(ops.progress("op"), Progress::Ended);
}

#[test]
fn a_differing_file_is_discarded() {
    let mut ops = Ops::new();
    let t = transfer(Some(DIGEST), Some("op"), Some(9));
    t.started(&mut ops, 5);
    let check = match t.ended(&mut ops, Some(0)) {
        TransferEnd::Check(c) => c,
        other => panic!("{:?}", other),
    };
    match check.hashed(&mut ops, &Ok(wrote(0, &"0".repeat(64)))) {
        HashEnd::Discard(m) => assert!(m.contains("obtenido 000000000000…")),
        other => panic!("{:?}", other),
    }
    assert_eq!(ops.progress("op"), Progress::Ended);
}

#[test]
fn a_download_needs_its_directory() {
    let refused = |dir: CacheDir, name: &str| {
        download_pkg(dir, String::new(), name.to_string(), None, None, false).unwrap_err()
    };
    assert_eq!(refused(CacheDir::Unknown, "f"), "no cache dir");
    assert_eq!(refused(CacheDir::Unknown, "../f"), "no cache dir");
    assert_eq!(refused(CacheDir::Failed("denied".to_string()), "../f"), "denied");
    assert_eq!(refused(CacheDir::Ready, "../f"), "nombre de archivo inválido: ../f");
}

#[test]
fn a_file_with_an_unreadable_digest_is_discarded_and_forgotten() {
    for run in [Ok(wrote(0, "aaaaaaaaaaañaa")), Ok(wrote(0, "")), Err("no".to_string())] {
        let mut ops = Ops::new();
        let t = transfer(Some(DIGEST), Some("op"), None);
        t.started(&mut ops, 5);
        let check = match t.ended(&mut ops, Some(0)) {
            TransferEnd::Check(c) => c,
            other => panic!("{:?}", other),
        };
        assert!(matches!(check.hashed(&mut ops, &run), HashEnd::Discard(_)));
        assert_eq!(ops.progress("op"), Progress::Ended);
    }
}

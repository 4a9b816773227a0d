use bookos_store::packages::{
    install_pkg_by_name, install_pkg_file, installed_query, installed_versions, is_installed,
    launch_app, launch_failure, lookup_installed, missing_file, parse_installed, parse_version,
    pkg_version, program_paths, uninstall_pkg, uninstalled, upgrade_all, valid_pkg_name,
    version_query,
};
use bookos_store::pm::Pm;
use bookos_store::process::Output;

fn out(code: Option<i32>, stdout: &str) -> Option<Output> {
    Some(Output { code, stdout: stdout.as_bytes().to_vec(), stderr: Vec::new() })
}

#[test]
fn the_last_line_of_a_package_counts() {
    let list = parse_installed("bash 5.2-1\nvim 9.0 extra\n\nlonely\nbash 5.3-1\n");
    assert_eq!(list.version("bash"), Some("5.3-1".to_string()));
    assert_eq!(list.version("vim"), Some("9.0".to_string()));
    assert_eq!(list.version("lonely"), None);
}

#[test]
fn a_failed_listing_lists_nothing() {
    assert_eq!(installed_versions(&out(Some(1), "bash 5\n")).version("bash"), None);
    assert_eq!(installed_versions(&None).version("bash"), None);
    assert_eq!(installed_versions(&out(None, "bash 5\n")).version("bash"), None);
    assert_eq!(
        installed_versions(&out(Some(0), "bash 5\n")).version("bash"),
        Some("5".to_string())
    );
}

#[test]
fn broken_bytes_do_not_stop_a_listing() {
    let o = Some(Output { code: Some(0), stdout: b"a\xff 1\nb 2\n".to_vec(), stderr: vec![] });
    let list = installed_versions(&o);
    assert_eq!(list.version("b"), Some("2".to_string()));
    assert_eq!(list.version("a\u{fffd}"), Some("1".to_string()));
}

#[test]
fn a_program_on_disk_counts_as_manual() {
    let list = parse_installed("bash 5\n");
    assert_eq!(lookup_installed(&list, "bash", false), Some("5".to_string()));
    assert_eq!(lookup_installed(&list, "vim", true), Some("manual".to_string()));
    assert_eq!(lookup_installed(&list, "vim", false), None);
    assert_eq!(program_paths("vim"), vec!["/usr/bin/vim", "/usr/local/bin/vim", "/bin/vim"]);
}

#[test]
fn versions_are_read_from_answers() {
    assert_eq!(parse_version(Pm::Pacman, " bash 5.2-1\n"), Some("5.2-1".to_string()));
    assert_eq!(parse_version(Pm::Pacman, "bash"), None);
    assert_eq!(parse_version(Pm::Dnf, "5.2-1.fc40\n"), Some("5.2-1.fc40".to_string()));
    assert_eq!(parse_version(Pm::Dnf, "el paquete no está instalado"), None);
    assert_eq!(parse_version(Pm::Dnf, " "), None);
    assert_eq!(parse_version(Pm::Apt, "1:2\n"), Some("1:2".to_string()));
    assert_eq!(parse_version(Pm::Apt, ""), None);
}

#[test]
fn a_version_query_that_fails_falls_back_to_the_disk() {
    assert_eq!(pkg_version(Pm::Apt, &out(Some(0), "3\n"), false), Some("3".to_string()));
    assert_eq!(pkg_version(Pm::Apt, &out(Some(1), "3\n"), true), Some("manual".to_string()));
    assert_eq!(pkg_version(Pm::Apt, &None, false), None);
    assert!(is_installed(Pm::Pacman, &out(Some(0), "a 1"), false));
    assert!(is_installed(Pm::Pacman, &None, true));
    assert!(!is_installed(Pm::Pacman, &None, false));
}

#[test]
fn queries_fit_the_package_manager() {
    assert_eq!(installed_query(Pm::Pacman).args, vec!["-Q"]);
    assert_eq!(installed_query(Pm::Dnf).program, "rpm");
    assert_eq!(
        installed_query(Pm::Dnf).args,
        vec!["-qa", "--qf", "%{NAME} %{VERSION}-%{RELEASE}\n"]
    );
    assert_eq!(installed_query(Pm::Apt).args, vec!["-W", "-f=${Package} ${Version}\n"]);
    assert_eq!(version_query(Pm::Pacman, "x").args, vec!["-Q", "x"]);
    assert_eq!(
        version_query(Pm::Dnf, "x").args,
        vec!["-q", "--qf", "%{VERSION}-%{RELEASE}", "x"]
    );
    assert_eq!(version_query(Pm::Apt, "x").program, "dpkg-query");
}

#[test]
fn plausible_names_are_plain() {
    assert!(valid_pkg_name("bookos-store"));
    assert!(valid_pkg_name("lib32-gtk3+2.0_x:amd64@1"));
    assert!(!valid_pkg_name(""));
    assert!(!valid_pkg_name("-rf"));
    assert!(!valid_pkg_name("../bin/sh"));
    assert!(!valid_pkg_name("a b"));
    assert!(!valid_pkg_name("ñ"));
    assert!(valid_pkg_name(&"a".repeat(128)));
    assert!(!valid_pkg_name(&"a".repeat(129)));
}

#[test]
fn commands_refuse_implausible_names() {
    let message = "Nombre de paquete inválido: -x".to_string();
    assert_eq!(launch_app("-x"), Err(message.clone()));
    assert_eq!(install_pkg_by_name(Pm::Apt, "-x"), Err(message.clone()));
    assert_eq!(uninstall_pkg(Pm::Dnf, "-x"), Err(message));
}

#[test]
fn commands_fit_the_package_manager() {
    let c = launch_app("vim").unwrap();
    assert_eq!((c.program.as_str(), c.args.len()), ("vim", 0));
    let c = install_pkg_file(Pm::Pacman, "/tmp/a.zst");
    assert_eq!(c.program, "pacman");
    assert_eq!(c.args, vec!["-U", "--noconfirm", "/tmp/a.zst"]);
    assert_eq!(
        install_pkg_file(Pm::Dnf, "f").args,
        vec!["install", "-y", "--allowerasing", "f"]
    );
    assert_eq!(
        install_pkg_file(Pm::Apt, "f").args,
        vec!["install", "-y", "--allow-downgrades", "f"]
    );
    assert_eq!(
        install_pkg_by_name(Pm::Dnf, "vim").unwrap().args,
        vec!["install", "-y", "--refresh", "vim"]
    );
    assert_eq!(
        install_pkg_by_name(Pm::Pacman, "vim").unwrap().args,
        vec!["-Sy", "--noconfirm", "vim"]
    );
    assert_eq!(uninstall_pkg(Pm::Pacman, "vim").unwrap().args, vec!["-Rs", "--noconfirm", "vim"]);
    assert_eq!(uninstall_pkg(Pm::Apt, "vim").unwrap().args, vec!["remove", "-y", "vim"]);
    let c = upgrade_all(Pm::Apt);
    assert_eq!(c.program, "sh");
    assert_eq!(c.args, vec!["-c", "apt update && apt upgrade -y"]);
    assert_eq!(upgrade_all(Pm::Dnf).args, vec!["upgrade", "-y", "--refresh"]);
    assert_eq!(launch_failure("vim", "no"), "No se pudo lanzar vim: no");
    assert_eq!(missing_file("/x", "no"), "Archivo no existe: /x (no)");
}

#[test]
fn a_removal_tells_ok_or_why_not() {
    assert_eq!(uninstalled(Ok("removing vim\n".to_string())), Ok("ok".to_string()));
    assert_eq!(uninstalled(Ok(String::new())), Ok("ok".to_string()));
    assert_eq!(uninstalled(Err("E: a".to_string())), Err("E: a".to_string()));
}

use bookos_store::json::Json;
use bookos_store::pm::{
    binary_paths, detect_pm, distro_family, os_release_names, os_release_value, pm_info, pm_named,
    pm_of_binaries, Binaries, Pm,
};

const NONE: Binaries =
    Binaries { pacman: false, dnf: false, rpm: false, dpkg: false, apt: false };

#[test]
fn the_name_that_is_asked_for_wins() {
    let release = "ID=fedora\n";
    assert_eq!(detect_pm(Some("APT"), Some(release), NONE), Pm::Apt);
    assert_eq!(detect_pm(Some("Pacman"), None, NONE), Pm::Pacman);
    assert_eq!(detect_pm(Some("zypper"), Some(release), NONE), Pm::Dnf);
    assert_eq!(pm_named("dnf"), Some(Pm::Dnf));
    assert_eq!(pm_named("DNF"), None);
}

#[test]
fn the_release_file_counts_over_programs() {
    let has = Binaries { pacman: true, ..NONE };
    let release = "NAME=\"x\"\nID=linuxmint\nID_LIKE=\"ubuntu debian\"\n";
    assert_eq!(detect_pm(None, Some(release), has), Pm::Apt);
    let arch = "ID=\"CachyOS\"\nID_LIKE=arch\n";
    assert_eq!(detect_pm(None, Some(arch), Binaries { dpkg: true, ..NONE }), Pm::Pacman);
    assert_eq!(os_release_value(release, "ID_LIKE="), "ubuntu debian");
    assert_eq!(os_release_value(release, "VERSION="), "");
    assert_eq!(os_release_names(arch), "cachyos arch");
}

#[test]
fn families_are_found_by_whole_words() {
    assert_eq!(distro_family("bookos arch"), Some(Pm::Pacman));
    assert_eq!(distro_family("rocky rhel centos fedora"), Some(Pm::Dnf));
    assert_eq!(distro_family("debian arch"), Some(Pm::Pacman));
    assert_eq!(distro_family("archlinux"), None);
    assert_eq!(distro_family(" "), None);
}

#[test]
fn programs_decide_at_last() {
    assert_eq!(detect_pm(None, None, NONE), Pm::Pacman);
    assert_eq!(detect_pm(None, Some("ID=void\n"), Binaries { rpm: true, ..NONE }), Pm::Dnf);
    assert_eq!(pm_of_binaries(Binaries { apt: true, ..NONE }), Pm::Apt);
    assert_eq!(pm_of_binaries(Binaries { dnf: true, dpkg: true, ..NONE }), Pm::Dnf);
    assert_eq!(pm_of_binaries(Binaries { pacman: true, dpkg: true, ..NONE }), Pm::Pacman);
    assert_eq!(binary_paths("dnf"), vec!["/usr/bin/dnf", "/bin/dnf"]);
}

#[test]
fn the_window_is_told_name_and_extension() {
    let info = pm_info(Pm::Pacman);
    assert_eq!(info.get("pm").unwrap().as_str(), Some("pacman"));
    assert_eq!(
        info.get("exts"),
        Some(&Json::Array(vec![Json::Str(".pkg.tar.zst".to_string())]))
    );
    assert_eq!(
        pm_info(Pm::Apt).get("exts"),
        Some(&Json::Array(vec![Json::Str(".deb".to_string())]))
    );
    assert_eq!(pm_info(Pm::Dnf).get("pm").unwrap().as_str(), Some("dnf"));
}

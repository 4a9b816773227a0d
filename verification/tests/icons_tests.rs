use bookos_store::icons::{get_icon, IconPlace, IconSearch, IconStep};

fn uri(place: IconPlace, bytes: &[u8]) -> String {
    let search = IconSearch { name: "x".to_string(), place };
    match search.looked(Some(bytes.to_vec())) {
        IconStep::Done(u) => u,
        other => panic!("{:?}", other),
    }
}

#[test]
fn pictures_are_carried_in_base64() {
    assert_eq!(uri(IconPlace::Png256, b""), "data:image/png;base64,");
    assert_eq!(uri(IconPlace::Png64, b"f"), "data:image/png;base64,Zg==");
    assert_eq!(uri(IconPlace::Png64, b"fo"), "data:image/png;base64,Zm8=");
    assert_eq!(uri(IconPlace::Png64, b"foo"), "data:image/png;base64,Zm9v");
    assert_eq!(uri(IconPlace::Png64, b"foobar"), "data:image/png;base64,Zm9vYmFy");
    assert_eq!(uri(IconPlace::Scalable, &[0xfb, 0xff, 0xfe]), "data:image/svg+xml;base64,+//+");
}

#[test]
fn places_are_tried_in_order() {
    let mut search = get_icon("app".to_string());
    let mut paths = Vec::new();
    loop {
        paths.push(search.path());
        match search.looked(None) {
            IconStep::Look(next) => search = next,
            IconStep::Done(u) => {
                assert_eq!(u, "");
                break;
            }
        }
    }
    assert_eq!(
        paths,
        vec![
            "/usr/share/icons/hicolor/256x256/apps/app.png",
            "/usr/share/icons/hicolor/512x512/apps/app.png",
            "/usr/share/icons/hicolor/128x128/apps/app.png",
            "/usr/share/icons/hicolor/96x96/apps/app.png",
            "/usr/share/icons/hicolor/64x64/apps/app.png",
            "/usr/share/icons/hicolor/48x48/apps/app.png",
            "/usr/share/icons/hicolor/scalable/apps/app.svg",
        ]
    );
}

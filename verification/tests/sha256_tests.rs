use bookos_store::process::Output;
use bookos_store::sha256::{
    checked_digest, compare_sha256, digest_tool, digest_word, expected_sha256, verify_sha256,
};

const DIGEST: &str = "e3b0c44298fc1c149afbf4c8996fb92427ae41e4649b934ca495991b7852b855";

fn tool(code: Option<i32>, stdout: &str) -> Result<Output, String> {
    Ok(Output { code, stdout: stdout.as_bytes().to_vec(), stderr: Vec::new() })
}

#[test]
fn a_published_digest_is_normalised() {
    assert_eq!(
        expected_sha256(&format!(" {}\n", DIGEST.to_uppercase())),
        Ok(DIGEST.to_string())
    );
    let message = "El catálogo no trae un sha256 válido para este paquete.".to_string();
    assert_eq!(expected_sha256("abc"), Err(message.clone()));
    assert_eq!(expected_sha256(&"g".repeat(64)), Err(message.clone()));
    assert_eq!(expected_sha256(&"a".repeat(65)), Err(message.clone()));
    assert_eq!(checked_digest("ñ".repeat(32)), Err(message));
}

#[test]
fn the_same_digest_is_accepted() {
    let run = tool(Some(0), &format!("{}  /tmp/f\n", DIGEST.to_uppercase()));
    assert_eq!(verify_sha256(DIGEST, &run), Ok(()));
    assert_eq!(digest_word(" ab  cd"), "ab");
    assert_eq!(digest_word(""), "");
}

#[test]
fn another_digest_is_refused() {
    let other = "0123456789abcdef".repeat(4);
    assert_eq!(
        verify_sha256(DIGEST, &tool(Some(0), &other)),
        Err(
            "El paquete descargado no coincide con el catálogo (sha256 esperado e3b0c44298fc…, \
             obtenido 0123456789ab…). Se ha descartado la descarga."
                .to_string()
        )
    );
    assert_eq!(
        compare_sha256(DIGEST, ""),
        Err(
            "El paquete descargado no coincide con el catálogo (sha256 esperado e3b0c44298fc…, \
             obtenido desconocido…). Se ha descartado la descarga."
                .to_string()
        )
    );
}

#[test]
fn a_digest_that_cannot_be_taken_is_no_match() {
    assert_eq!(
        verify_sha256(DIGEST, &Err("no".to_string())),
        Err("No se pudo calcular el hash del paquete: no".to_string())
    );
    assert_eq!(
        verify_sha256(DIGEST, &tool(Some(1), DIGEST)),
        Err("No se pudo calcular el hash del paquete.".to_string())
    );
}

#[test]
fn a_word_that_cannot_be_cut_is_refused_too() {
    assert_eq!(
        verify_sha256(DIGEST, &tool(Some(0), "aaaaaaaaaaañaa")),
        Err(
            "El paquete descargado no coincide con el catálogo (sha256 esperado e3b0c44298fc…, \
             obtenido desconocido…). Se ha descartado la descarga."
                .to_string()
        )
    );
    assert!(matches!(
        verify_sha256(DIGEST, &tool(Some(0), "aaaaaaaaaañaa")),
        Err(m) if m.contains("obtenido aaaaaaaaaañ…")
    ));
}

#[test]
fn the_digest_tool_takes_one_file() {
    let tool = digest_tool();
    assert_eq!(tool.front.program, "sha256sum");
    assert!(tool.front.args.is_empty());
    assert!(tool.rest.is_empty());
}

//! Checking a downloaded file against the SHA-256 that the catalogue publishes.

use vstd::prelude::*;
use vstd::string::*;
use vstd::utf8::*;
use crate::process::{
    command,
    success,
    succeeded,
    CommandLine,
    FileCommand,
    FileCommandV,
    Output,
};
use crate::text::{
    all_ink,
    all_white,
    chars_of,
    is_white,
    law_lower_case_of_ascii,
    law_one_word,
    law_trim_undoes_padding,
    law_words_of_both,
    lossy,
    lossy_text,
    lowercase,
    plain_case,
    result_text,
    same_text,
    split_words,
    texts,
    to_lowercase,
    trim,
    trimmed,
    words,
};

verus! {

/// `c` is a hexadecimal digit.
pub open spec fn is_hex(c: char) -> bool {
    '0' <= c <= '9' || 'a' <= c <= 'f' || 'A' <= c <= 'F'
}

/// `s` writes a SHA-256: sixty-four hexadecimal digits.
pub open spec fn is_digest(s: Seq<char>) -> bool {
    s.len() == 64 && forall|i: int| 0 <= i < s.len() ==> is_hex(#[trigger] s[i])
}

/// A digest in the form in which it is compared: lower case, without white space around it.
pub open spec fn normal(digest: Seq<char>) -> Seq<char> {
    lowercase(trimmed(digest))
}

/// What is told of a catalogue without a usable digest.
pub open spec fn bad_digest() -> Seq<char> {
    "El catálogo no trae un sha256 válido para este paquete."@
}

/// A text in lower case, where it is a digest.
pub fn checked_digest(lowered: String) -> (r: Result<String, String>)
    ensures
        result_text(r) == (if is_digest(lowered@) {
            Ok(lowered@)
        } else {
            Err(bad_digest())
        }),
{
    let v = chars_of(lowered.as_str());
    let mut fine: bool = v.len() == 64;
    let mut i: usize = 0;
    while i < v.len()
        invariant
            i <= v@.len(),
            fine == (v@.len() == 64 && forall|k: int| 0 <= k < i ==> is_hex(#[trigger] v@[k])),
        decreases v@.len() - i,
    {
        let c = v[i];
        if !(('0' <= c && c <= '9') || ('a' <= c && c <= 'f') || ('A' <= c && c <= 'F')) {
            assert(!is_hex(v@[i as int]));
            fine = false;
        }
        i = i + 1;
    }
    if fine {
        Ok(lowered)
    } else {
        Err("El catálogo no trae un sha256 válido para este paquete.".to_owned())
    }
}

/// The digest that the catalogue publishes, in the form in which it is compared.
pub fn expected_sha256(published: &str) -> (r: Result<String, String>)
    ensures
        plain_case(trimmed(published@)),
        result_text(r) == (if is_digest(normal(published@)) {
            Ok(normal(published@))
        } else {
            Err(bad_digest())
        }),
{
    checked_digest(to_lowercase(trim(published).as_str()))
}

/// The text that the first `n` bytes of `s` encode.
pub open spec fn byte_prefix(s: Seq<char>, n: int) -> Seq<char> {
    decode_utf8(encode_utf8(s).take(n))
}

/// The start of a digest as a message shows it: its first twelve bytes, where it is that long and no
/// character is cut.
pub open spec fn shown_digest(got: Seq<char>) -> Seq<char> {
    if encode_utf8(got).len() >= 12 && is_char_boundary(encode_utf8(got), 12) {
        byte_prefix(got, 12)
    } else {
        "desconocido"@
    }
}

/// What is told where the file is not the one that the catalogue means.
pub open spec fn mismatch(expected: Seq<char>, got: Seq<char>) -> Seq<char> {
    "El paquete descargado no coincide con el catálogo (sha256 esperado "@ + expected.take(12)
        + "…, obtenido "@ + shown_digest(got) + "…). Se ha descartado la descarga."@
}

/// The command of the digest tool: the file is its only argument.
pub open spec fn digest_command() -> FileCommandV {
    FileCommandV { front: command("sha256sum"@, Seq::empty()), rest: Seq::empty() }
}

/// The command that takes the digest of a file.
pub fn digest_tool() -> (r: FileCommand)
    ensures
        r@ == digest_command(),
{
    let rest: Vec<String> = Vec::new();
    assert(texts(rest@) =~= Seq::empty());
    FileCommand { front: CommandLine::new("sha256sum"), rest }
}

/// The first word of what the digest tool wrote; empty where it wrote none.
pub open spec fn tool_word(written: Seq<char>) -> Seq<char> {
    if words(written).len() > 0 {
        words(written)[0]
    } else {
        Seq::empty()
    }
}

fn shown(got: &str) -> (r: String)
    ensures
        r@ == shown_digest(got@),
{
    if got.as_bytes().len() >= 12 && got.is_char_boundary(12) {
        let (front, _) = got.split_at(12);
        proof {
            assert(encode_utf8(got@).subrange(0, 12) =~= encode_utf8(got@).take(12));
            encode_utf8_decode_utf8(front@);
        }
        front.to_owned()
    } else {
        "desconocido".to_owned()
    }
}

/// Compares the digest of a file with the expected one.
pub fn compare_sha256(expected: &str, got: &str) -> (r: Result<(), String>)
    requires
        is_digest(expected@),
    ensures
        match r {
            Ok(_) => got@ == expected@,
            Err(e) => got@ != expected@ && e@ == mismatch(expected@, got@),
        },
{
    if same_text(got, expected) {
        return Ok(());
    }
    let v = chars_of(expected);
    let start = crate::text::text_of(&v, 0, 12);
    assert(start@ =~= expected@.take(12));
    Err(
        "El paquete descargado no coincide con el catálogo (sha256 esperado ".to_owned().concat(
            start.as_str(),
        ).concat("…, obtenido ").concat(shown(got).as_str()).concat(
            "…). Se ha descartado la descarga.",
        ),
    )
}

/// The digest in what the digest tool wrote, as it is compared.
pub open spec fn tool_digest(written: Seq<char>) -> Seq<char> {
    lowercase(tool_word(written))
}

/// The first word of what the digest tool wrote.
pub fn digest_word(written: &str) -> (r: String)
    ensures
        r@ == tool_word(written@),
{
    let ws = split_words(written);
    if ws.len() > 0 {
        assert(words(written@)[0] == ws@[0]@);
        ws[0].clone()
    } else {
        String::new()
    }
}

/// What becomes of a file that must have the `expected` digest, where `run` is what the digest tool
/// left behind, or why it could not be run.
pub open spec fn verdict(expected: Seq<char>, run: Result<Output, String>) -> Result<
    (),
    Seq<char>,
> {
    match run {
        Err(cause) => Err("No se pudo calcular el hash del paquete: "@ + cause@),
        Ok(out) => if !succeeded(out.code) {
            Err("No se pudo calcular el hash del paquete."@)
        } else {
            let got = tool_digest(lossy(out.stdout@));
            if got == expected {
                Ok(())
            } else {
                Err(mismatch(expected, got))
            }
        },
    }
}

/// Checks a file against the `expected` digest, from what [`digest_tool`] left behind, or from why
/// it could not be run.
pub fn verify_sha256(expected: &str, run: &Result<Output, String>) -> (r: Result<(), String>)
    requires
        is_digest(expected@),
    ensures
        match verdict(expected@, *run) {
            Ok(_) => r is Ok,
            Err(message) => r matches Err(e) && e@ == message,
        },
        run matches Ok(out) ==> (succeeded(out.code) ==> plain_case(
            tool_word(lossy(out.stdout@)),
        )),
{
    match run {
        Err(cause) => Err(
            "No se pudo calcular el hash del paquete: ".to_owned().concat(cause.as_str()),
        ),
        Ok(out) => {
            if !success(out.code) {
                return Err("No se pudo calcular el hash del paquete.".to_owned());
            }
            let written = lossy_text(out.stdout.as_slice());
            let got = to_lowercase(digest_word(written.as_str()).as_str());
            compare_sha256(expected, got.as_str())
        },
    }
}

/// `s` holds none but the digits that the lower-case hexadecimal encoding uses.
pub open spec fn lower_hex(s: Seq<char>) -> bool {
    forall|i: int| 0 <= i < s.len() ==> "0123456789abcdef"@.contains(#[trigger] s[i])
}

/// `s` holds none but hexadecimal digits, of either case.
pub open spec fn any_hex(s: Seq<char>) -> bool {
    forall|i: int|
        0 <= i < s.len() ==> "0123456789abcdef"@.contains(#[trigger] s[i]) || "ABCDEF"@.contains(
            s[i],
        )
}

/// The sixteen digits of the lower-case hexadecimal encoding are the decimal ones and the first six
/// letters, and the upper-case one has the same letters as capitals.
proof fn lemma_hex_digits(c: char)
    ensures
        "0123456789abcdef"@.contains(c) <==> '0' <= c <= '9' || 'a' <= c <= 'f',
        "ABCDEF"@.contains(c) <==> 'A' <= c <= 'F',
        is_hex(c) <==> "0123456789abcdef"@.contains(c) || "ABCDEF"@.contains(c),
{
    reveal_strlit("0123456789abcdef");
    reveal_strlit("ABCDEF");
    let lower = "0123456789abcdef"@;
    let upper = "ABCDEF"@;
    assert(lower[0] == '0' && lower[1] == '1' && lower[2] == '2' && lower[3] == '3' && lower[4]
        == '4' && lower[5] == '5' && lower[6] == '6' && lower[7] == '7' && lower[8] == '8'
        && lower[9] == '9' && lower[10] == 'a' && lower[11] == 'b' && lower[12] == 'c' && lower[13]
        == 'd' && lower[14] == 'e' && lower[15] == 'f');
    assert(upper[0] == 'A' && upper[1] == 'B' && upper[2] == 'C' && upper[3] == 'D' && upper[4]
        == 'E' && upper[5] == 'F');
    if lower.contains(c) {
        let k = choose|k: int| 0 <= k < lower.len() && lower[k] == c;
        assert(0 <= k < 16);
    }
    if upper.contains(c) {
        let k = choose|k: int| 0 <= k < upper.len() && upper[k] == c;
        assert(0 <= k < 6);
    }
    if '0' <= c <= '9' || 'a' <= c <= 'f' {
        assert(c == '0' || c == '1' || c == '2' || c == '3' || c == '4' || c == '5' || c == '6' || c
            == '7' || c == '8' || c == '9' || c == 'a' || c == 'b' || c == 'c' || c == 'd' || c
            == 'e' || c == 'f');
    }
    if 'A' <= c <= 'F' {
        assert(c == 'A' || c == 'B' || c == 'C' || c == 'D' || c == 'E' || c == 'F');
    }
}

/// A text of lower-case hexadecimal digits is ASCII, has no white space and is its own lower case.
proof fn lemma_lower_hex(s: Seq<char>)
    requires
        lower_hex(s),
    ensures
        is_ascii_chars(s),
        all_ink(s),
        plain_case(s) ==> lowercase(s) == s,
        s.len() == 64 ==> is_digest(s),
{
    assert forall|i: int| 0 <= i < s.len() implies ('0' <= #[trigger] s[i] <= '9' || 'a' <= s[i]
        <= 'f') && is_hex(s[i]) by {
        lemma_hex_digits(s[i]);
    }
    if s.len() > 0 {
        if plain_case(s) {
            law_lower_case_of_ascii(s, 0);
        }
    } else if plain_case(s) {
        assert(lowercase(s) =~= s);
    }
}

/// Every digest that the catalogue can publish is taken as it is: sixty-four lower-case hexadecimal
/// digits, with or without white space around them.
pub proof fn law_published_digest_is_taken(
    published: &str,
    a: Seq<char>,
    digest: Seq<char>,
    b: Seq<char>,
    r: Result<String, String>,
)
    requires
        call_ensures(expected_sha256, (published,), r),
        all_white(a),
        all_white(b),
        published@ == a + digest + b,
        digest.len() == 64,
        lower_hex(digest),
    ensures
        r matches Ok(d) && d@ == digest,
{
    lemma_lower_hex(digest);
    law_trim_undoes_padding(a, digest, b);
}

/// A digest in capitals is taken too, in small letters and digit by digit.
pub proof fn law_digest_in_capitals_is_taken(
    published: &str,
    digest: Seq<char>,
    i: int,
    r: Result<String, String>,
)
    requires
        call_ensures(expected_sha256, (published,), r),
        published@ == digest,
        digest.len() == 64,
        any_hex(digest),
        0 <= i < 64,
    ensures
        r matches Ok(d) && d@.len() == 64 && ('A' <= digest[i] <= 'F' ==> d@[i] as int - 'a' as int
            == digest[i] as int - 'A' as int) && (!('A' <= digest[i] <= 'F') ==> d@[i]
            == digest[i]),
{
    assert forall|k: int| 0 <= k < digest.len() implies is_hex(#[trigger] digest[k]) && !is_white(
        digest[k],
    ) by {
        lemma_hex_digits(digest[k]);
    }
    let none = Seq::<char>::empty();
    assert(none + digest + none =~= digest);
    law_trim_undoes_padding(none, digest, none);
    assert(is_ascii_chars(digest)) by {
        assert forall|k: int| 0 <= k < digest.len() implies '\0' <= #[trigger] digest[k]
            <= '\u{7f}' by {
            assert(is_hex(digest[k]));
        }
    }
    law_lower_case_of_ascii(digest, i);
    let low = lowercase(digest);
    assert forall|k: int| 0 <= k < low.len() implies is_hex(#[trigger] low[k]) by {
        law_lower_case_of_ascii(digest, k);
        assert(is_hex(digest[k]));
    }
    assert(is_hex(digest[i]));
}

/// Nothing else is taken: what is handed on has sixty-four hexadecimal digits, and a text that is
/// refused is answered with one message.
pub proof fn law_only_digests_are_taken(published: &str, r: Result<String, String>, i: int)
    requires
        call_ensures(expected_sha256, (published,), r),
        0 <= i < 64,
    ensures
        r matches Ok(d) ==> d@.len() == 64 && ("0123456789abcdef"@.contains(d@[i])
            || "ABCDEF"@.contains(d@[i])),
        r matches Err(e) ==> e@ == "El catálogo no trae un sha256 válido para este paquete."@,
{
    if let Ok(d) = r {
        assert(is_hex(d@[i]));
        lemma_hex_digits(d@[i]);
    }
}

/// A file is accepted where the expected digest is the first word that the tool prints, and refused
/// where it prints another one, prints none, fails or could not be run.
pub proof fn law_file_with_the_digest_is_accepted(
    expected: &str,
    run: Result<Output, String>,
    lead: Seq<char>,
    printed: Seq<char>,
    rest: Seq<char>,
    r: Result<(), String>,
)
    requires
        call_ensures(verify_sha256, (expected, &run), r),
        lower_hex(expected@),
        lower_hex(printed),
        all_white(lead),
        rest.len() == 0 || is_white(rest[0]),
    ensures
        run matches Ok(out) ==> (out.code == Some(0i32) && lossy(out.stdout@) == lead + printed
            + rest && printed.len() > 0 ==> (r is Ok <==> printed == expected@)),
        run matches Ok(out) ==> (out.code != Some(0i32) ==> (r matches Err(e) && e@
            == "No se pudo calcular el hash del paquete."@)),
        run matches Err(cause) ==> (r matches Err(e) && e@
            == "No se pudo calcular el hash del paquete: "@ + cause@),
{
    lemma_lower_hex(printed);
    if let Ok(out) = run {
        if out.code == Some(0i32) && lossy(out.stdout@) == lead + printed + rest && printed.len()
            > 0 {
            law_words_of_both(lead + printed, rest);
            law_words_of_both(lead, printed);
            law_one_word(lead);
            law_one_word(printed);
            assert(words(lead) + words(printed) =~= seq![printed]);
            assert(words(lead + printed + rest)[0] == printed);
        }
    }
}

/// Two digests agree exactly where they are the same text.
pub proof fn law_digests_agree(expected: &str, got: &str, r: Result<(), String>)
    requires
        call_ensures(compare_sha256, (expected, got), r),
    ensures
        r is Ok <==> expected@ == got@,
{
}

/// What is told of a file with another digest shows the first twelve digits of both, or says that the
/// digest is unknown where it is shorter than that.
pub proof fn law_both_digests_are_shown(expected: &str, got: &str, e: String)
    requires
        call_ensures(compare_sha256, (expected, got), Err(e)),
        expected@.len() == 64,
        is_ascii_chars(got@),
    ensures
        got@.len() >= 12 ==> exists|a: Seq<char>, b: Seq<char>, c: Seq<char>|
            e@ == #[trigger] (a + expected@.take(12) + b + got@.take(12) + c),
        got@.len() < 12 ==> exists|a: Seq<char>, b: Seq<char>, c: Seq<char>|
            e@ == #[trigger] (a + expected@.take(12) + b + "desconocido"@ + c),
{
    let g = got@;
    let a = "El paquete descargado no coincide con el catálogo (sha256 esperado "@;
    let b = "…, obtenido "@;
    let c = "…). Se ha descartado la descarga."@;
    is_ascii_chars_encode_utf8(g);
    if g.len() < 12 {
        assert(e@ == a + expected@.take(12) + b + "desconocido"@ + c);
    } else {
        lemma_first_twelve(g);
        assert(e@ == a + expected@.take(12) + b + g.take(12) + c);
    }
}

/// The start of an ASCII text that is shown is its first twelve characters.
proof fn lemma_first_twelve(g: Seq<char>)
    requires
        g.len() >= 12,
        is_ascii_chars(g),
    ensures
        shown_digest(g) == g.take(12),
{
    let front = g.take(12);
    is_ascii_chars_encode_utf8(g);
    assert(is_ascii_chars(front));
    is_ascii_chars_encode_utf8(front);
    let bytes = encode_utf8(g);
    encode_utf8_valid_utf8(g);
    assert(bytes.take(12) =~= encode_utf8(front)) by {
        assert forall|k: int| 0 <= k < 12 implies bytes[k] == #[trigger] encode_utf8(front)[k] by {
            assert(g[k] as u8 == bytes[k]);
            assert(front[k] as u8 == encode_utf8(front)[k]);
        }
    }
    encode_utf8_decode_utf8(front);
    if g.len() == 12 {
        is_char_boundary_start_end_of_seq(bytes);
    } else {
        assert(g[12] as u8 == bytes[12]);
        assert(bytes[12] < 0x80);
        is_char_boundary_iff_is_leading_byte(bytes, 12);
    }
}

} // verus!

//! The icon of an application, as an address that carries the picture itself.

use vstd::prelude::*;
use vstd::string::*;

verus! {

/// The character that stands for six bits in the standard Base64 alphabet.
pub open spec fn base64_char(v: int) -> char {
    if v < 26 {
        (65 + v) as char
    } else if v < 52 {
        (97 + v - 26) as char
    } else if v < 62 {
        (48 + v - 52) as char
    } else if v == 62 {
        '+'
    } else {
        '/'
    }
}

/// A byte, or zero past the end.
pub open spec fn byte_at(bytes: Seq<u8>, i: int) -> int {
    if 0 <= i < bytes.len() {
        bytes[i] as int
    } else {
        0
    }
}

/// The six bits that the character at position `i` of a Base64 text stands for: four characters
/// stand for three bytes.
pub open spec fn six_bits(bytes: Seq<u8>, i: int) -> int {
    let g = 3 * (i / 4);
    let w = byte_at(bytes, g) * 65536 + byte_at(bytes, g + 1) * 256 + byte_at(bytes, g + 2);
    if i % 4 == 0 {
        w / 262144
    } else if i % 4 == 1 {
        (w / 4096) % 64
    } else if i % 4 == 2 {
        (w / 64) % 64
    } else {
        w % 64
    }
}

/// The length of the Base64 text of `n` bytes.
pub open spec fn base64_len(n: nat) -> nat {
    4 * ((n + 2) / 3)
}

/// The Base64 text of some bytes: a character for each six bits of them, padded to whole groups.
pub open spec fn base64_text(bytes: Seq<u8>) -> Seq<char> {
    let n = bytes.len();
    Seq::new(
        base64_len(n),
        |i: int|
            if i < (4 * n + 2) / 3 {
                base64_char(six_bits(bytes, i))
            } else {
                '='
            },
    )
}

/// Calls `encode` of the `base64` crate with the engine `general_purpose::STANDARD`: the result is the
/// text in the standard alphabet, padded with `=` to a multiple of four characters. The text must
/// fit in memory.
#[verifier::external_body]
fn base64_of(bytes: &[u8]) -> (r: String)
    requires
        base64_len(bytes@.len()) <= isize::MAX,
    ensures
        r@ == base64_text(bytes@),
{
    base64::Engine::encode(&base64::engine::general_purpose::STANDARD, bytes)
}

/// A place where the icon of an application can be.
#[derive(Clone, Copy, Debug, PartialEq)]
pub enum IconPlace {
    Png256,
    Png512,
    Png128,
    Png96,
    Png64,
    Png48,
    Scalable,
}

/// The directory of a place below the icon theme.
pub open spec fn place_dir(place: IconPlace) -> Seq<char> {
    match place {
        IconPlace::Png256 => "256x256"@,
        IconPlace::Png512 => "512x512"@,
        IconPlace::Png128 => "128x128"@,
        IconPlace::Png96 => "96x96"@,
        IconPlace::Png64 => "64x64"@,
        IconPlace::Png48 => "48x48"@,
        IconPlace::Scalable => "scalable"@,
    }
}

/// The extension of the pictures in a place.
pub open spec fn place_ext(place: IconPlace) -> Seq<char> {
    if place is Scalable {
        ".svg"@
    } else {
        ".png"@
    }
}

/// How the address of a picture from a place starts.
pub open spec fn place_kind(place: IconPlace) -> Seq<char> {
    if place is Scalable {
        "data:image/svg+xml;base64,"@
    } else {
        "data:image/png;base64,"@
    }
}

/// The place that is tried next.
pub open spec fn next_place(place: IconPlace) -> Option<IconPlace> {
    match place {
        IconPlace::Png256 => Some(IconPlace::Png512),
        IconPlace::Png512 => Some(IconPlace::Png128),
        IconPlace::Png128 => Some(IconPlace::Png96),
        IconPlace::Png96 => Some(IconPlace::Png64),
        IconPlace::Png64 => Some(IconPlace::Png48),
        IconPlace::Png48 => Some(IconPlace::Scalable),
        IconPlace::Scalable => None,
    }
}

/// The file of the icon called `name` in a place.
pub open spec fn icon_path(place: IconPlace, name: Seq<char>) -> Seq<char> {
    "/usr/share/icons/hicolor/"@ + place_dir(place) + "/apps/"@ + name + place_ext(place)
}

/// The address that carries a picture from a place.
pub open spec fn icon_uri(place: IconPlace, bytes: Seq<u8>) -> Seq<char> {
    place_kind(place) + base64_text(bytes)
}

/// A search for an icon that is to look at `place`.
#[derive(Debug)]
pub struct IconSearch {
    pub name: String,
    pub place: IconPlace,
}

/// What follows a look at a place.
#[derive(Debug)]
pub enum IconStep {
    /// Look at the next place.
    Look(IconSearch),
    /// The address of the icon; empty where no place has it.
    Done(String),
}

/// What a step of the search is, where the place held `bytes` or nothing readable.
pub open spec fn icon_step(
    r: IconStep,
    name: Seq<char>,
    place: IconPlace,
    content: Option<Seq<u8>>,
) -> bool {
    match content {
        Some(bytes) => r matches IconStep::Done(uri) && uri@ == icon_uri(place, bytes),
        None => match next_place(place) {
            Some(next) => r matches IconStep::Look(s) && s.name@ == name && s.place == next,
            None => r matches IconStep::Done(uri) && uri@.len() == 0,
        },
    }
}

/// Starts the search for the icon called `name`.
pub fn get_icon(name: String) -> (r: IconSearch)
    ensures
        r.name == name,
        r.place == IconPlace::Png256,
{
    IconSearch { name, place: IconPlace::Png256 }
}

/// The bytes that were read from a place, if any were.
pub open spec fn content_of(content: Option<Vec<u8>>) -> Option<Seq<u8>> {
    match content {
        Some(b) => Some(b@),
        None => None,
    }
}

impl IconSearch {
    /// The file to read.
    pub fn path(&self) -> (r: String)
        ensures
            r@ == icon_path(self.place, self.name@),
    {
        let dir: &str = match self.place {
            IconPlace::Png256 => "256x256",
            IconPlace::Png512 => "512x512",
            IconPlace::Png128 => "128x128",
            IconPlace::Png96 => "96x96",
            IconPlace::Png64 => "64x64",
            IconPlace::Png48 => "48x48",
            IconPlace::Scalable => "scalable",
        };
        let ext: &str = match self.place {
            IconPlace::Scalable => ".svg",
            _ => ".png",
        };
        "/usr/share/icons/hicolor/".to_owned().concat(dir).concat("/apps/").concat(
            self.name.as_str(),
        ).concat(ext)
    }

    /// What follows once the file was read, or could not be.
    pub fn looked(self, content: Option<Vec<u8>>) -> (r: IconStep)
        requires
            content matches Some(b) ==> base64_len(b@.len()) <= isize::MAX,
        ensures
            icon_step(r, self.name@, self.place, content_of(content)),
    {
        match content {
            Some(bytes) => {
                let kind: &str = match self.place {
                    IconPlace::Scalable => "data:image/svg+xml;base64,",
                    _ => "data:image/png;base64,",
                };
                IconStep::Done(kind.to_owned().concat(base64_of(bytes.as_slice()).as_str()))
            },
            None => {
                let next = match self.place {
                    IconPlace::Png256 => IconPlace::Png512,
                    IconPlace::Png512 => IconPlace::Png128,
                    IconPlace::Png128 => IconPlace::Png96,
                    IconPlace::Png96 => IconPlace::Png64,
                    IconPlace::Png64 => IconPlace::Png48,
                    IconPlace::Png48 => IconPlace::Scalable,
                    IconPlace::Scalable => return IconStep::Done(String::new()),
                };
                IconStep::Look(IconSearch { name: self.name, place: next })
            },
        }
    }
}

/// How many places come after a place.
pub open spec fn places_left(place: IconPlace) -> nat {
    match place {
        IconPlace::Png256 => 6,
        IconPlace::Png512 => 5,
        IconPlace::Png128 => 4,
        IconPlace::Png96 => 3,
        IconPlace::Png64 => 2,
        IconPlace::Png48 => 1,
        IconPlace::Scalable => 0,
    }
}

/// The address that the search leads to from a place on, where `files` gives what can be read.
pub open spec fn found_icon(
    place: IconPlace,
    name: Seq<char>,
    files: spec_fn(Seq<char>) -> Option<Seq<u8>>,
) -> Seq<char>
    decreases places_left(place),
{
    match files(icon_path(place, name)) {
        Some(bytes) => icon_uri(place, bytes),
        None => match next_place(place) {
            Some(next) => found_icon(next, name, files),
            None => Seq::empty(),
        },
    }
}

/// The icon is that of the first place that has it, and empty exactly where no place has it.
pub proof fn law_first_place_with_the_icon(
    name: Seq<char>,
    files: spec_fn(Seq<char>) -> Option<Seq<u8>>,
    place: IconPlace,
)
    ensures
        files(icon_path(place, name)) is Some && (forall|p: IconPlace|
            places_left(p) > places_left(place) ==> files(#[trigger] icon_path(p, name)) is None)
            ==> found_icon(IconPlace::Png256, name, files) == icon_uri(
            place,
            files(icon_path(place, name))->0,
        ),
        found_icon(IconPlace::Png256, name, files).len() == 0 <==> (forall|p: IconPlace|
            files(#[trigger] icon_path(p, name)) is None),
{
    reveal_with_fuel(found_icon, 8);
    reveal_strlit("data:image/svg+xml;base64,");
    reveal_strlit("data:image/png;base64,");
    assert(forall|p: IconPlace, b: Seq<u8>| (#[trigger] icon_uri(p, b)).len() > 0);
}

/// The search starts with the middle size, for the name that was asked for.
pub proof fn law_search_starts_in_the_middle(name: String, search: IconSearch, path: String)
    requires
        call_ensures(get_icon, (name,), search),
        call_ensures(IconSearch::path, (&search,), path),
    ensures
        search.name@ == name@,
        path@ == "/usr/share/icons/hicolor/256x256/apps/"@ + name@ + ".png"@,
{
    reveal_strlit("/usr/share/icons/hicolor/");
    reveal_strlit("256x256");
    reveal_strlit("/apps/");
    reveal_strlit("/usr/share/icons/hicolor/256x256/apps/");
    assert("/usr/share/icons/hicolor/"@ + "256x256"@ + "/apps/"@
        =~= "/usr/share/icons/hicolor/256x256/apps/"@);
}

/// Where an icon is looked for: below the directory of its size, as a picture in points, or below the
/// one for any size, as a drawing.
pub proof fn law_file_of_an_icon(search: IconSearch, path: String)
    requires
        call_ensures(IconSearch::path, (&search,), path),
    ensures
        path@ == "/usr/share/icons/hicolor/"@ + (match search.place {
            IconPlace::Png256 => "256x256"@,
            IconPlace::Png512 => "512x512"@,
            IconPlace::Png128 => "128x128"@,
            IconPlace::Png96 => "96x96"@,
            IconPlace::Png64 => "64x64"@,
            IconPlace::Png48 => "48x48"@,
            IconPlace::Scalable => "scalable"@,
        }) + "/apps/"@ + search.name@ + (if search.place is Scalable {
            ".svg"@
        } else {
            ".png"@
        }),
{
}

/// A file that can be read ends the search with its picture, of the kind of its place. Otherwise the
/// sizes are tried in order, the drawing last, and then the answer is empty.
pub proof fn law_next_place(search: IconSearch, bytes: Vec<u8>, hit: IconStep, miss: IconStep)
    requires
        call_ensures(IconSearch::looked, (search, Some(bytes)), hit),
        call_ensures(IconSearch::looked, (search, None), miss),
    ensures
        hit matches IconStep::Done(uri) && (search.place is Scalable ==> uri@
            == "data:image/svg+xml;base64,"@ + base64_text(bytes@)) && (search.place !is Scalable
            ==> uri@ == "data:image/png;base64,"@ + base64_text(bytes@)),
        search.place is Scalable ==> (miss matches IconStep::Done(uri) && uri@.len() == 0),
        search.place !is Scalable ==> (miss matches IconStep::Look(next) && next.name@
            == search.name@ && next.place == (match search.place {
            IconPlace::Png256 => IconPlace::Png512,
            IconPlace::Png512 => IconPlace::Png128,
            IconPlace::Png128 => IconPlace::Png96,
            IconPlace::Png96 => IconPlace::Png64,
            IconPlace::Png64 => IconPlace::Png48,
            _ => IconPlace::Scalable,
        })),
{
}

/// Each of the sixty-four values has a character of its own.
pub proof fn law_characters_tell_values(v: int, w: int)
    requires
        0 <= v < 64,
        0 <= w < 64,
    ensures
        base64_char(v) == base64_char(w) ==> v == w,
        base64_char(v) != '=',
{
}

/// Three bytes can be told from the four values that stand for them.
pub proof fn law_values_tell_bytes(bytes: Seq<u8>, g: int)
    requires
        0 <= g,
        3 * g + 2 < bytes.len(),
    ensures
        0 <= six_bits(bytes, 4 * g) < 64,
        0 <= six_bits(bytes, 4 * g + 1) < 64,
        0 <= six_bits(bytes, 4 * g + 2) < 64,
        0 <= six_bits(bytes, 4 * g + 3) < 64,
        six_bits(bytes, 4 * g) * 262144 + six_bits(bytes, 4 * g + 1) * 4096 + six_bits(
            bytes,
            4 * g + 2,
        ) * 64 + six_bits(bytes, 4 * g + 3) == bytes[3 * g] * 65536 + bytes[3 * g + 1] * 256
            + bytes[3 * g + 2],
{
    assert((4 * g) / 4 == g && (4 * g + 1) / 4 == g && (4 * g + 2) / 4 == g && (4 * g + 3) / 4
        == g);
    assert((4 * g) % 4 == 0 && (4 * g + 1) % 4 == 1 && (4 * g + 2) % 4 == 2 && (4 * g + 3) % 4
        == 3);
    let w = bytes[3 * g] * 65536 + bytes[3 * g + 1] * 256 + bytes[3 * g + 2];
    assert(0 <= w < 16777216);
    assert(w == (w / 262144) * 262144 + ((w / 4096) % 64) * 4096 + ((w / 64) % 64) * 64 + w % 64);
}

/// The text has four characters for each three bytes or part of them, and ends in as many padding
/// characters as bytes lack in the last group.
pub proof fn law_length_of_the_text(bytes: Seq<u8>)
    ensures
        base64_text(bytes).len() == 4 * ((bytes.len() + 2) / 3),
        bytes.len() % 3 == 0 && bytes.len() > 0 ==> base64_text(bytes).last() != '=',
        bytes.len() % 3 == 1 ==> base64_text(bytes)[base64_text(bytes).len() - 2] == '='
            && base64_text(bytes).last() == '=',
        bytes.len() % 3 == 2 ==> base64_text(bytes)[base64_text(bytes).len() - 2] != '='
            && base64_text(bytes).last() == '=',
{
}

} // verus!

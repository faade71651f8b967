//! Application icons: where an icon is to be found, and how an icon image
//! becomes a `data:` URL of a 32×32 PNG.

use vstd::prelude::*;

use crate::text::{chars_of, has_prefix, starts_with_text};

verus! {

// ---------------------------------------------------------------------------
// Outside items: the `image` and `base64` crates.

#[verifier::external_type_specification]
#[verifier::external_body]
pub struct ExDynamicImage(image::DynamicImage);

#[verifier::external_type_specification]
#[verifier::external_body]
pub struct ExImageError(image::ImageError);

/// What `base64`'s standard engine (padded) makes of these bytes.
pub uninterp spec fn base64_of(bytes: Seq<u8>) -> Seq<char>;

/// Bytes in an icon's pixel buffer: 32 × 32 pixels of 8-bit RGBA.
pub const ICON_RGBA_LEN: usize = 4096;

/// The bytes begin with the PNG signature and an IHDR chunk that describes a
/// 32×32 image of 8-bit RGBA (colour type 6).
pub open spec fn png_icon_header(png: Seq<u8>) -> bool {
    &&& png.len() >= 26
    &&& png.subrange(0, 26) == seq![
        137u8, 80, 78, 71, 13, 10, 26, 10,
        0, 0, 0, 13, 73, 72, 68, 82,
        0, 0, 0, 32, 0, 0, 0, 32,
        8, 6,
    ]
}

/// Relies on `image::load_from_memory`: decodes bytes in a format that it
/// recognises. Which formats it recognises can change at run time through
/// `image::hooks`, so nothing is claimed of the outcome.
#[verifier::external_body]
fn decode_image(bytes: &Vec<u8>) -> Result<image::DynamicImage, image::ImageError> {
    image::load_from_memory(bytes.as_slice())
}

/// Relies on `DynamicImage::resize_exact` (Lanczos3), which always returns
/// an image of the requested 32×32 size; its pixels are read back as 8-bit
/// RGBA rows, four bytes a pixel.
#[verifier::external_body]
fn icon_pixels(img: &image::DynamicImage) -> (r: Vec<u8>)
    ensures
        r@.len() == ICON_RGBA_LEN,
{
    img.resize_exact(32, 32, image::imageops::FilterType::Lanczos3).to_rgba8().into_raw()
}

/// Relies on `PngEncoder::write_image` (`image::ImageEncoder`) for a 32×32
/// `Rgba8` buffer: on success the output, written into an empty vector,
/// starts with the PNG signature and the IHDR chunk that png's encoder writes
/// first (width and height 32, bit depth 8, colour type RGBA).
#[verifier::external_body]
fn encode_png_32(pixels: &Vec<u8>) -> (r: Result<Vec<u8>, image::ImageError>)
    requires
        pixels@.len() == ICON_RGBA_LEN,
    ensures
        r matches Ok(png) ==> png_icon_header(png@),
{
    let mut png: Vec<u8> = Vec::new();
    let encoder = image::codecs::png::PngEncoder::new(&mut png);
    image::ImageEncoder::write_image(
        encoder,
        pixels.as_slice(),
        32,
        32,
        image::ExtendedColorType::Rgba8,
    )?;
    Ok(png)
}

/// Relies on `ImageError`'s `Display`: the error's message.
#[verifier::external_body]
fn image_error_text(e: &image::ImageError) -> String {
    e.to_string()
}

/// Relies on `base64::Engine::encode` with `general_purpose::STANDARD`:
/// padded standard base64, four characters for each started group of three
/// bytes. It panics only when that length overflows `usize`.
#[verifier::external_body]
fn base64_standard(bytes: &Vec<u8>) -> (r: String)
    requires
        bytes@.len() <= isize::MAX,
    ensures
        r@ == base64_of(bytes@),
        r@.len() == 4 * ((bytes@.len() + 2) / 3),
{
    base64::Engine::encode(&base64::engine::general_purpose::STANDARD, bytes)
}

// ---------------------------------------------------------------------------
// Data URLs.

/// `data:<mime>;base64,<bytes in base64>`.
pub open spec fn data_url_spec(mime: Seq<char>, bytes: Seq<u8>) -> Seq<char> {
    "data:"@ + mime + ";base64,"@ + base64_of(bytes)
}

/// A `data:` URL carrying `bytes` as base64, with media type `mime`.
pub fn data_url(mime: &str, bytes: &Vec<u8>) -> (r: String)
    requires
        bytes@.len() <= isize::MAX,
    ensures
        r@ == data_url_spec(mime@, bytes@),
{
    let encoded = base64_standard(bytes);
    let mut r = String::from_str("data:");
    r.append(mime);
    r.append(";base64,");
    r.append(encoded.as_str());
    r
}

/// The message of a failed PNG encoding.
pub open spec fn is_encode_failure(message: Seq<char>) -> bool {
    exists|detail: Seq<char>| message == "Failed to encode PNG: "@ + detail
}

/// A URL that carries a 32×32 RGBA PNG.
pub open spec fn is_png_icon_url(url: Seq<char>) -> bool {
    exists|png: Seq<u8>| png_icon_header(png) && url == data_url_spec("image/png"@, png)
}

/// The reply for an encoding attempt: the PNG as a `data:image/png` URL, or,
/// when encoding failed, a message that says so. (A PNG longer than
/// `isize::MAX` bytes cannot exist; it too is reported as an encoding
/// failure.)
pub fn png_url_of_encoding(encoded: &Result<Vec<u8>, image::ImageError>) -> (r: Result<
    String,
    String,
>)
    ensures
        *encoded is Ok && encoded->Ok_0@.len() <= isize::MAX ==> (r matches Ok(url) && url@
            == data_url_spec("image/png"@, encoded->Ok_0@)),
        r matches Ok(url) ==> (*encoded is Ok && url@ == data_url_spec(
            "image/png"@,
            encoded->Ok_0@,
        )),
        r matches Err(message) ==> is_encode_failure(message@),
{
    match encoded {
        Ok(png) => {
            if png.len() > isize::MAX as usize {
                proof {
                    reveal_strlit("Failed to encode PNG: image data too large");
                    reveal_strlit("Failed to encode PNG: ");
                    reveal_strlit("image data too large");
                    assert("Failed to encode PNG: image data too large"@ =~= "Failed to encode PNG: "@
                        + "image data too large"@);
                }
                return Err(String::from_str("Failed to encode PNG: image data too large"));
            }
            Ok(data_url("image/png", png))
        },
        Err(e) => {
            let detail = image_error_text(e);
            let mut message = String::from_str("Failed to encode PNG: ");
            message.append(detail.as_str());
            Err(message)
        },
    }
}

/// The icon as a 32×32 PNG in a `data:image/png` URL, or an encoding failure.
pub fn png_icon_data_url(img: &image::DynamicImage) -> (r: Result<String, String>)
    ensures
        r matches Ok(url) ==> is_png_icon_url(url@),
        r matches Err(message) ==> is_encode_failure(message@),
{
    let pixels = icon_pixels(img);
    let encoded = encode_png_32(&pixels);
    let r = png_url_of_encoding(&encoded);
    proof {
        if r is Ok {
            let png = encoded->Ok_0@;
            assert(png_icon_header(png));
        }
    }
    r
}

/// The reply for an icon read from an executable, given what decoding it
/// gave: when decoding failed, the bytes themselves as an `image/x-icon`
/// URL; otherwise the decoded image as a 32×32 PNG URL, or an encoding
/// failure.
pub fn icon_url_of_decoding(
    ico: &Vec<u8>,
    decoded: &Result<image::DynamicImage, image::ImageError>,
) -> (r: Result<String, String>)
    requires
        ico@.len() <= isize::MAX,
    ensures
        *decoded is Err ==> (r matches Ok(url) && url@ == data_url_spec("image/x-icon"@, ico@)),
        *decoded is Ok ==> (r matches Ok(url) ==> is_png_icon_url(url@)),
        r matches Err(message) ==> (*decoded is Ok && is_encode_failure(message@)),
{
    match decoded {
        Ok(img) => png_icon_data_url(img),
        Err(_) => Ok(data_url("image/x-icon", ico)),
    }
}

/// An icon read from an executable, as a data URL: a 32×32 PNG when the
/// bytes decode as an image, the bytes themselves as `image/x-icon` when
/// they do not.
pub fn icon_from_ico(ico: &Vec<u8>) -> (r: Result<String, String>)
    requires
        ico@.len() <= isize::MAX,
    ensures
        r matches Ok(url) ==> (url@ == data_url_spec("image/x-icon"@, ico@) || is_png_icon_url(
            url@,
        )),
        r matches Err(message) ==> is_encode_failure(message@),
{
    let decoded = decode_image(ico);
    icon_url_of_decoding(ico, &decoded)
}

// ---------------------------------------------------------------------------
// Where an icon is.

/// The part of a text before its first comma (all of it when it has none).
pub open spec fn before_comma(s: Seq<char>) -> Seq<char>
    decreases s.len(),
{
    if s.len() == 0 {
        s
    } else if s[0] == ',' {
        Seq::empty()
    } else {
        seq![s[0]] + before_comma(s.drop_first())
    }
}

/// The text without its leading double quotes.
pub open spec fn trim_leading_quotes(s: Seq<char>) -> Seq<char>
    decreases s.len(),
{
    if s.len() > 0 && s[0] == '"' {
        trim_leading_quotes(s.drop_first())
    } else {
        s
    }
}

/// The text without its trailing double quotes.
pub open spec fn trim_trailing_quotes(s: Seq<char>) -> Seq<char>
    decreases s.len(),
{
    if s.len() > 0 && s.last() == '"' {
        trim_trailing_quotes(s.drop_last())
    } else {
        s
    }
}

/// The file named by a registry `DisplayIcon` value (`"C:\app.exe",0` or
/// `C:\app.exe`): what precedes the first comma, without surrounding quotes.
pub open spec fn display_icon_file(display_icon: Seq<char>) -> Seq<char> {
    trim_trailing_quotes(trim_leading_quotes(before_comma(display_icon)))
}

proof fn lemma_before_comma(s: Seq<char>, c: int)
    requires
        0 <= c <= s.len(),
        c == s.len() || s[c] == ',',
        forall|k: int| 0 <= k < c ==> #[trigger] s[k] != ',',
    ensures
        before_comma(s) == s.take(c),
    decreases s.len(),
{
    if s.len() > 0 && c > 0 {
        let t = s.drop_first();
        assert forall|k: int| 0 <= k < c - 1 implies #[trigger] t[k] != ',' by {
            assert(t[k] == s[k + 1]);
        }
        lemma_before_comma(t, c - 1);
        assert(s.take(c) =~= seq![s[0]] + t.take(c - 1));
    } else if s.len() > 0 {
        assert(s.take(c) =~= Seq::<char>::empty());
    } else {
        assert(s.take(c) =~= s);
    }
}

proof fn lemma_trim_leading(s: Seq<char>, i: int)
    requires
        0 <= i <= s.len(),
        i == s.len() || s[i] != '"',
        forall|k: int| 0 <= k < i ==> #[trigger] s[k] == '"',
    ensures
        trim_leading_quotes(s) == s.skip(i),
    decreases s.len(),
{
    if i > 0 {
        let t = s.drop_first();
        assert forall|k: int| 0 <= k < i - 1 implies #[trigger] t[k] == '"' by {
            assert(t[k] == s[k + 1]);
        }
        lemma_trim_leading(t, i - 1);
        assert(s.skip(i) =~= t.skip(i - 1));
    } else {
        assert(s.skip(0) =~= s);
    }
}

proof fn lemma_trim_trailing(s: Seq<char>, m: int)
    requires
        0 <= m <= s.len(),
        m == 0 || s[m - 1] != '"',
        forall|k: int| m <= k < s.len() ==> #[trigger] s[k] == '"',
    ensures
        trim_trailing_quotes(s) == s.take(m),
    decreases s.len(),
{
    if m < s.len() {
        let t = s.drop_last();
        assert forall|k: int| m <= k < t.len() implies #[trigger] t[k] == '"' by {
            assert(t[k] == s[k]);
        }
        lemma_trim_trailing(t, m);
        assert(s.take(m) =~= t.take(m));
    } else {
        assert(s.take(m) =~= s);
    }
}

/// The file a `DisplayIcon` value names: the text before its first comma,
/// with leading and trailing double quotes removed.
pub fn display_icon_path(display_icon: &str) -> (r: String)
    ensures
        r@ == display_icon_file(display_icon@),
{
    let cs = chars_of(display_icon);
    let n = cs.len();
    let mut c: usize = 0;
    while c < n && cs[c] != ','
        invariant
            cs@ == display_icon@,
            n == cs.len(),
            c <= n,
            forall|k: int| 0 <= k < c ==> #[trigger] display_icon@[k] != ',',
        decreases n - c,
    {
        c = c + 1;
    }
    let mut i: usize = 0;
    while i < c && cs[i] == '"'
        invariant
            cs@ == display_icon@,
            n == cs.len(),
            c <= n,
            i <= c,
            forall|k: int| 0 <= k < i ==> #[trigger] display_icon@[k] == '"',
        decreases c - i,
    {
        i = i + 1;
    }
    let mut j: usize = c;
    while j > i && cs[j - 1] == '"'
        invariant
            cs@ == display_icon@,
            n == cs.len(),
            c <= n,
            i <= j <= c,
            forall|k: int| j <= k < c ==> #[trigger] display_icon@[k] == '"',
        decreases j - i,
    {
        j = j - 1;
    }
    proof {
        let s = display_icon@;
        lemma_before_comma(s, c as int);
        let b = s.take(c as int);
        assert forall|k: int| 0 <= k < i implies #[trigger] b[k] == '"' by {
            assert(b[k] == s[k]);
        }
        lemma_trim_leading(b, i as int);
        let t = b.skip(i as int);
        assert forall|k: int| j - i <= k < t.len() implies #[trigger] t[k] == '"' by {
            assert(t[k] == s[k + i]);
        }
        if j > i {
            assert(t[j - i - 1] == s[j - 1]);
        }
        lemma_trim_trailing(t, j - i);
        assert(t.take(j - i) =~= s.subrange(i as int, j as int));
    }
    String::from_str(display_icon.substring_char(i, j))
}

/// The sizes searched, in order of preference.
pub open spec fn icon_sizes() -> Seq<Seq<char>> {
    seq!["48"@, "64"@, "128"@, "256"@, "32"@]
}

/// The image formats searched, in order of preference.
pub open spec fn icon_formats() -> Seq<Seq<char>> {
    seq!["png"@, "svg"@, "xpm"@]
}

/// The icon-theme directories searched, in order.
pub open spec fn theme_roots(home: Seq<char>) -> Seq<Seq<char>> {
    seq![
        "/usr/share/icons/hicolor/"@,
        home + "/.local/share/icons/hicolor/"@,
        "/usr/share/icons/gnome/"@,
    ]
}

/// The pixmap directories searched last, in order.
pub open spec fn pixmap_roots(home: Seq<char>) -> Seq<Seq<char>> {
    seq!["/usr/share/pixmaps/"@, home + "/.local/share/pixmaps/"@]
}

/// The number of places searched for a named icon: every size, format and
/// theme directory, then every format in each pixmap directory.
pub open spec fn icon_candidate_count() -> int {
    51
}

/// The `k`-th place searched for the icon `name`: sizes first, then formats,
/// then theme directories; after those, formats then pixmap directories.
pub open spec fn icon_candidate(name: Seq<char>, home: Seq<char>, k: int) -> Seq<char> {
    if k < 45 {
        let size = icon_sizes()[k / 9];
        theme_roots(home)[k % 3] + size + "x"@ + size + "/apps/"@ + name + "."@ + icon_formats()[(k
            % 9) / 3]
    } else {
        pixmap_roots(home)[(k - 45) % 2] + name + "."@ + icon_formats()[(k - 45) / 2]
    }
}

fn size_label(i: usize) -> (r: &'static str)
    requires
        i < 5,
    ensures
        r@ == icon_sizes()[i as int],
{
    if i == 0 {
        "48"
    } else if i == 1 {
        "64"
    } else if i == 2 {
        "128"
    } else if i == 3 {
        "256"
    } else {
        "32"
    }
}

fn format_label(i: usize) -> (r: &'static str)
    requires
        i < 3,
    ensures
        r@ == icon_formats()[i as int],
{
    if i == 0 {
        "png"
    } else if i == 1 {
        "svg"
    } else {
        "xpm"
    }
}

fn theme_root(i: usize, home: &str) -> (r: String)
    requires
        i < 3,
    ensures
        r@ == theme_roots(home@)[i as int],
{
    if i == 0 {
        String::from_str("/usr/share/icons/hicolor/")
    } else if i == 1 {
        let mut r = String::from_str(home);
        r.append("/.local/share/icons/hicolor/");
        r
    } else {
        String::from_str("/usr/share/icons/gnome/")
    }
}

fn pixmap_root(i: usize, home: &str) -> (r: String)
    requires
        i < 2,
    ensures
        r@ == pixmap_roots(home@)[i as int],
{
    if i == 0 {
        String::from_str("/usr/share/pixmaps/")
    } else {
        let mut r = String::from_str(home);
        r.append("/.local/share/pixmaps/");
        r
    }
}

fn icon_candidate_at(name: &str, home: &str, k: usize) -> (r: String)
    requires
        k < 51,
    ensures
        r@ == icon_candidate(name@, home@, k as int),
{
    if k < 45 {
        let size = size_label(k / 9);
        let mut r = theme_root(k % 3, home);
        r.append(size);
        r.append("x");
        r.append(size);
        r.append("/apps/");
        r.append(name);
        r.append(".");
        r.append(format_label((k % 9) / 3));
        r
    } else {
        let mut r = pixmap_root((k - 45) % 2, home);
        r.append(name);
        r.append(".");
        r.append(format_label((k - 45) / 2));
        r
    }
}

/// Every place searched for the icon `name`, in order of preference, with
/// `home` as the user's home directory.
pub fn icon_candidates(name: &str, home: &str) -> (r: Vec<String>)
    ensures
        r@.len() == icon_candidate_count(),
        forall|k: int| 0 <= k < r@.len() ==> (#[trigger] r@[k])@ == icon_candidate(name@, home@, k),
{
    let mut out: Vec<String> = Vec::new();
    let mut k: usize = 0;
    while k < 51
        invariant
            k <= 51,
            out@.len() == k,
            forall|j: int| 0 <= j < k ==> (#[trigger] out@[j])@ == icon_candidate(name@, home@, j),
        decreases 51 - k,
    {
        let c = icon_candidate_at(name, home, k);
        out.push(c);
        k = k + 1;
    }
    out
}

/// Where to look for an icon given a hint: the file itself, or the places
/// to search for an icon of that name.
pub enum IconSource {
    File(String),
    Search(Vec<String>),
}

/// An absolute path (starting with `/`) names the icon file itself; any
/// other hint is an icon name, looked for in the standard places.
pub fn icon_source(hint: &str, home: &str) -> (r: IconSource)
    ensures
        has_prefix(hint@, "/"@) ==> (r matches IconSource::File(path) && path@ == hint@),
        !has_prefix(hint@, "/"@) ==> (r matches IconSource::Search(places) && places@.len()
            == icon_candidate_count() && forall|k: int|
            0 <= k < places@.len() ==> (#[trigger] places@[k])@ == icon_candidate(
                hint@,
                home@,
                k,
            )),
{
    if starts_with_text(hint, "/") {
        IconSource::File(String::from_str(hint))
    } else {
        IconSource::Search(icon_candidates(hint, home))
    }
}

} // verus!

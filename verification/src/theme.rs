use vstd::prelude::*;
use image::imageops::FilterType;
use image::GenericImageView;
use crate::text::{
    chars_of, dec_text, hash_pred, hex_byte, hex_digit, is_unicode_whitespace, is_whitespace_char,
    lemma_drop_while_at, lemma_drop_while_end_at, lemma_utf8_len_first,
    lemma_utf8_len_single_bytes, lemma_utf8_len_split, push_char, push_decimal, push_hex_byte,
    strip_hashes, strip_leading_hashes, trim_text, utf8_len, utf8_width, utf8_width_of,
    whitespace_pred,
};

verus! {

/// The error type of the image decoder, carried through unchanged.
#[verifier::external_type_specification]
#[verifier::external_body]
pub struct ExImageError(image::ImageError);

/// Failures while building a palette.
#[derive(Debug)]
pub enum ThemeError {
    /// The wallpaper image could not be read or decoded.
    Image(image::ImageError),
    /// The text is not a hexadecimal colour; it carries the text as given.
    InvalidHex(String),
}

/// The resampling filters that shrink an image, as `image::imageops::FilterType` names them.
#[derive(Debug, Clone, Copy, PartialEq, Eq, Structural)]
pub enum ResampleFilter {
    Nearest,
    Triangle,
    CatmullRom,
    Gaussian,
    Lanczos3,
}

/// Whether `image::ImageFormat::from_extension` knows the format that `extension` names.
pub uninterp spec fn extension_names_format(extension: Seq<char>) -> bool;

/// Whether `bytes` decode as an image in the format that `extension` names.
pub uninterp spec fn image_decodes(bytes: Seq<u8>, extension: Seq<char>) -> bool;

/// The RGB channels of the decoded image resized to `width` x `height` with `filter`.
pub uninterp spec fn thumbnail_pixels(
    bytes: Seq<u8>,
    extension: Seq<char>,
    width: u32,
    height: u32,
    filter: ResampleFilter,
) -> Seq<(u8, u8, u8)>;

/// Decodes an image held in memory and resizes it.
/// Trusted: `image::ImageFormat::from_extension` (`None` where it knows no format),
/// `image::load_from_memory_with_format`, `DynamicImage::resize_exact` and `pixels`, of whose
/// RGBA pixels RGB is kept. Which format is known, whether the bytes decode and the pixels
/// depend on the arguments alone, which the three names record; `resize_exact` gives exactly
/// `width * height` pixels.
#[verifier::external_body]
fn decode_resized(
    bytes: &[u8],
    extension: &str,
    width: u32,
    height: u32,
    filter: ResampleFilter,
) -> (res: Option<Result<Vec<(u8, u8, u8)>, image::ImageError>>)
    requires
        width > 0,
        height > 0,
        width as nat * height as nat * 4 <= usize::MAX,
    ensures
        res is Some <==> extension_names_format(extension@),
        res matches Some(r) ==> (r is Ok <==> image_decodes(bytes@, extension@)),
        res matches Some(Ok(px)) ==> px@ == thumbnail_pixels(bytes@, extension@, width, height, filter)
            && px@.len() == width as nat * height as nat,
{
    let format = image::ImageFormat::from_extension(extension)?;
    let filter = match filter {
        ResampleFilter::Nearest => FilterType::Nearest,
        ResampleFilter::Triangle => FilterType::Triangle,
        ResampleFilter::CatmullRom => FilterType::CatmullRom,
        ResampleFilter::Gaussian => FilterType::Gaussian,
        ResampleFilter::Lanczos3 => FilterType::Lanczos3,
    };
    let img = match image::load_from_memory_with_format(bytes, format) {
        Ok(img) => img.resize_exact(width, height, filter),
        Err(e) => return Some(Err(e)),
    };
    Some(Ok(img.pixels().map(|(_, _, p)| (p.0[0], p.0[1], p.0[2])).collect()))
}

/// The error `image` gives for a file extension that names no format it knows.
/// Trusted: builds `ImageError::Unsupported` with an `ImageFormatHint::PathExtension` hint.
#[verifier::external_body]
fn unknown_extension_error(extension: &str) -> image::ImageError {
    image::ImageError::Unsupported(image::error::ImageFormatHint::PathExtension(extension.into()).into())
}

/// The error `image` gives when a file has no extension to name its format.
/// Trusted: builds `ImageError::Unsupported` with `Unknown` format hints.
#[verifier::external_body]
fn missing_format_error() -> image::ImageError {
    let hint = image::error::ImageFormatHint::Unknown;
    let kind = image::error::UnsupportedErrorKind::Format(image::error::ImageFormatHint::Unknown);
    image::ImageError::Unsupported(image::error::UnsupportedError::from_format_and_kind(hint, kind))
}

/// Material You dynamic colour palette generated from a dominant wallpaper colour.
#[derive(Debug, Clone, PartialEq)]
pub struct NexusPalette {
    pub primary: String,
    pub on_primary: String,
    pub primary_container: String,
    pub on_primary_container: String,
    pub secondary: String,
    pub surface: String,
    pub on_surface: String,
    pub surface_variant: String,
    pub outline: String,
    pub background: String,
    pub active_border: String,
    pub inactive_border: String,
}

/// The sky-blue palette used when no colour can be derived.
pub open spec fn is_default_palette(p: NexusPalette) -> bool {
    &&& p.primary@ == "#38BDF8"@
    &&& p.on_primary@ == "#031E2C"@
    &&& p.primary_container@ == "#084C61"@
    &&& p.on_primary_container@ == "#BEE9F7"@
    &&& p.secondary@ == "#7DD3FC"@
    &&& p.surface@ == "#0F172A"@
    &&& p.on_surface@ == "#F8FAFC"@
    &&& p.surface_variant@ == "#1E293B"@
    &&& p.outline@ == "#475569"@
    &&& p.background@ == "#020617"@
    &&& p.active_border@ == "rgba(56, 189, 248, 1.0)"@
    &&& p.inactive_border@ == "rgba(30, 41, 59, 0.7)"@
}

impl Default for NexusPalette {
    /// The sky-blue palette used when no colour can be derived.
    fn default() -> (p: Self)
        ensures
            is_default_palette(p),
    {
        NexusPalette {
            primary: "#38BDF8".to_owned(),
            on_primary: "#031E2C".to_owned(),
            primary_container: "#084C61".to_owned(),
            on_primary_container: "#BEE9F7".to_owned(),
            secondary: "#7DD3FC".to_owned(),
            surface: "#0F172A".to_owned(),
            on_surface: "#F8FAFC".to_owned(),
            surface_variant: "#1E293B".to_owned(),
            outline: "#475569".to_owned(),
            background: "#020617".to_owned(),
            active_border: "rgba(56, 189, 248, 1.0)".to_owned(),
            inactive_border: "rgba(30, 41, 59, 0.7)".to_owned(),
        }
    }
}

/// The CSS variable block of a palette: the ten colour roles, one per line, under `:root`.
pub open spec fn css_text(p: NexusPalette) -> Seq<char> {
    ":root {\n  --nexus-primary: "@ + p.primary@
        + ";\n  --nexus-on-primary: "@ + p.on_primary@
        + ";\n  --nexus-primary-container: "@ + p.primary_container@
        + ";\n  --nexus-on-primary-container: "@ + p.on_primary_container@
        + ";\n  --nexus-secondary: "@ + p.secondary@
        + ";\n  --nexus-surface: "@ + p.surface@
        + ";\n  --nexus-on-surface: "@ + p.on_surface@
        + ";\n  --nexus-surface-variant: "@ + p.surface_variant@
        + ";\n  --nexus-outline: "@ + p.outline@
        + ";\n  --nexus-background: "@ + p.background@
        + ";\n}\n"@
}

/// The Hyprland `general` block that draws active borders with the primary and
/// secondary colours, each without its leading `'#'` characters.
pub open spec fn hyprland_text(p: NexusPalette) -> Seq<char> {
    "general {\n    col.active_border = rgb("@ + strip_hashes(p.primary@)
        + ") rgb("@ + strip_hashes(p.secondary@)
        + ") 45deg\n    col.inactive_border = rgba(30293bee)\n}\n"@
}

/// The tonal colours a palette is built from, one per colour role, each as RGB channels.
#[derive(Debug, Clone, Copy, PartialEq, Eq)]
pub struct PaletteTones {
    pub primary: (u8, u8, u8),
    pub primary_container: (u8, u8, u8),
    pub on_primary_container: (u8, u8, u8),
    pub secondary: (u8, u8, u8),
    pub surface: (u8, u8, u8),
    pub surface_variant: (u8, u8, u8),
    pub background: (u8, u8, u8),
    pub outline: (u8, u8, u8),
}

/// The hex text of a colour given as a triple.
pub open spec fn hex_of(c: (u8, u8, u8)) -> Seq<char> {
    hex_color_text(c.0, c.1, c.2)
}

/// `p` is the palette built from seed colour `(r, g, b)` and `tones`: each tonal role is
/// its tone as `#RRGGBB`, text on the accent is near-black on a light accent and white
/// otherwise, text on surfaces is near-white, the active border is the seed at 95%
/// opacity and the inactive border a fixed translucent slate.
pub open spec fn is_palette_from_tones(
    p: NexusPalette,
    r: u8,
    g: u8,
    b: u8,
    tones: PaletteTones,
    light_accent: bool,
) -> bool {
    &&& p.primary@ == hex_of(tones.primary)
    &&& p.on_primary@ == (if light_accent {
        "#050B14"@
    } else {
        "#FFFFFF"@
    })
    &&& p.primary_container@ == hex_of(tones.primary_container)
    &&& p.on_primary_container@ == hex_of(tones.on_primary_container)
    &&& p.secondary@ == hex_of(tones.secondary)
    &&& p.surface@ == hex_of(tones.surface)
    &&& p.on_surface@ == "#F8FAFC"@
    &&& p.surface_variant@ == hex_of(tones.surface_variant)
    &&& p.outline@ == hex_of(tones.outline)
    &&& p.background@ == hex_of(tones.background)
    &&& p.active_border@ == border_text(r, g, b)
    &&& p.inactive_border@ == "rgba(40, 48, 66, 0.60)"@
}

/// `#RRGGBB` with uppercase hexadecimal digits.
pub open spec fn hex_color_text(r: u8, g: u8, b: u8) -> Seq<char> {
    seq!['#'] + hex_byte(r) + hex_byte(g) + hex_byte(b)
}

/// `rgba(R, G, B, 0.95)` with decimal channels.
pub open spec fn border_text(r: u8, g: u8, b: u8) -> Seq<char> {
    "rgba("@ + dec_text(r as nat) + ", "@ + dec_text(g as nat) + ", "@ + dec_text(b as nat)
        + ", 0.95)"@
}

/// The value of a hexadecimal digit of either case.
pub open spec fn hex_value(c: char) -> Option<u8> {
    let u = c as u32;
    if 48 <= u <= 57 {
        Some((u - 48) as u8)
    } else if 97 <= u <= 102 {
        Some((u - 87) as u8)
    } else if 65 <= u <= 70 {
        Some((u - 55) as u8)
    } else {
        None
    }
}

/// What `u8::from_str_radix(_, 16)` gives for a two-character ASCII text: an optional
/// leading `'+'` followed by digits.
pub open spec fn pair_value(a: char, b: char) -> Option<u8> {
    if a == '+' {
        hex_value(b)
    } else {
        match (hex_value(a), hex_value(b)) {
            (Some(x), Some(y)) => Some((x * 16 + y) as u8),
            _ => None,
        }
    }
}

/// Reading one colour channel from the two bytes that start at character `a`, with `b`
/// the next character: they are a number only when both are single-byte characters that
/// `pair_value` reads; any other pair of bytes is no number.
pub open spec fn channel_read(a: char, b: char) -> Option<u8> {
    if utf8_width(a) == 1 && utf8_width(b) == 1 {
        pair_value(a, b)
    } else {
        None
    }
}

/// The text that is read as a colour: `s` trimmed of whitespace, then of leading `'#'`.
pub open spec fn hex_body(s: Seq<char>) -> Seq<char> {
    strip_hashes(trim_text(s))
}

/// The seed colour that `s` spells: the body must be six bytes long, read as three
/// two-byte channels (red, green, blue); `None` where any of this fails.
pub open spec fn hex_seed(s: Seq<char>) -> Option<(u8, u8, u8)> {
    let c = hex_body(s);
    if utf8_len(c) != 6 {
        None
    } else {
        match (channel_read(c[0], c[1]), channel_read(c[2], c[3]), channel_read(c[4], c[5])) {
            (Some(r), Some(g), Some(b)) => Some((r, g, b)),
            _ => None,
        }
    }
}

/// Every uppercase hexadecimal digit reads back as its value.
pub proof fn lemma_hex_digit_value(d: int)
    requires
        0 <= d < 16,
    ensures
        hex_value(hex_digit(d)) == Some(d as u8),
        utf8_width(hex_digit(d)) == 1,
        hex_digit(d) != '+',
        hex_digit(d) != '#',
        !is_unicode_whitespace(hex_digit(d)),
{
}

/// Two hexadecimal digits of a byte read back as that byte.
proof fn lemma_hex_byte_reads_back(b: u8)
    ensures
        channel_read(hex_byte(b)[0], hex_byte(b)[1]) == Some(b),
{
    lemma_hex_digit_value(b as int / 16);
    lemma_hex_digit_value(b as int % 16);
}

/// Six single-byte characters that are neither whitespace nor `'#'` and whose three pairs
/// read as `r`, `g` and `b` spell that colour, with or without a leading `'#'`.
proof fn lemma_six_digits_read(body: Seq<char>, r: u8, g: u8, b: u8)
    requires
        body.len() == 6,
        forall|i: int| 0 <= i < 6 ==> utf8_width(#[trigger] body[i]) == 1
            && !is_unicode_whitespace(body[i]) && body[i] != '#',
        channel_read(body[0], body[1]) == Some(r),
        channel_read(body[2], body[3]) == Some(g),
        channel_read(body[4], body[5]) == Some(b),
    ensures
        hex_seed(body) == Some((r, g, b)),
        hex_seed(seq!['#'] + body) == Some((r, g, b)),
{
    lemma_utf8_len_single_bytes(body, 6);
    assert(body.subrange(0, 6) =~= body);
    // The body: nothing to trim, nothing to strip.
    lemma_drop_while_at(body, whitespace_pred(), 0);
    lemma_drop_while_end_at(body, whitespace_pred(), 6);
    lemma_drop_while_at(body, hash_pred(), 0);
    assert(hex_body(body) =~= body);
    // With a '#': nothing to trim, one '#' to strip.
    let full = seq!['#'] + body;
    assert(full[0] == '#');
    assert forall|i: int| 1 <= i < 7 implies #[trigger] full[i] == body[i - 1] by {}
    lemma_drop_while_at(full, whitespace_pred(), 0);
    assert(full.subrange(0, 7) =~= full);
    lemma_drop_while_end_at(full, whitespace_pred(), 7);
    lemma_drop_while_at(full, hash_pred(), 1);
    assert(full.subrange(1, 7) =~= body);
    assert(hex_body(full) =~= body);
}

/// A colour written as `#RRGGBB` reads back as the same colour, with or without the `'#'`.
pub proof fn lemma_hex_color_roundtrip(r: u8, g: u8, b: u8)
    ensures
        hex_seed(hex_color_text(r, g, b)) == Some((r, g, b)),
        hex_seed(hex_color_text(r, g, b).drop_first()) == Some((r, g, b)),
{
    let full = hex_color_text(r, g, b);
    let body = full.drop_first();
    assert(body =~= hex_byte(r) + hex_byte(g) + hex_byte(b));
    lemma_hex_byte_reads_back(r);
    lemma_hex_byte_reads_back(g);
    lemma_hex_byte_reads_back(b);
    lemma_hex_digit_value(r as int / 16);
    lemma_hex_digit_value(r as int % 16);
    lemma_hex_digit_value(g as int / 16);
    lemma_hex_digit_value(g as int % 16);
    lemma_hex_digit_value(b as int / 16);
    lemma_hex_digit_value(b as int % 16);
    assert forall|i: int| 0 <= i < 6 implies utf8_width(#[trigger] body[i]) == 1
        && !is_unicode_whitespace(body[i]) && body[i] != '#' by {
        if i < 2 {
            assert(body[i] == hex_byte(r)[i]);
        } else if i < 4 {
            assert(body[i] == hex_byte(g)[i - 2]);
        } else {
            assert(body[i] == hex_byte(b)[i - 4]);
        }
    }
    lemma_six_digits_read(body, r, g, b);
    assert(seq!['#'] + body =~= full);
}

/// ASCII lowercase: `'A'..='Z'` become `'a'..='z'`, every other character stays.
pub open spec fn ascii_lowercase(c: char) -> char {
    let u = c as u32;
    if 65 <= u <= 90 {
        ((u + 32) as u8) as char
    } else {
        c
    }
}

/// The ten decimal digits read as 0 through 9, and each letter from `a` to `f`, in either
/// case, reads as 10 through 15: lowercase and uppercase letters read alike.
pub proof fn lemma_hex_digits_of_either_case(d: int)
    requires
        0 <= d < 16,
    ensures
        d < 10 ==> hex_value(((48 + d) as u8) as char) == Some(d as u8),
        d >= 10 ==> hex_value(((87 + d) as u8) as char) == Some(d as u8),
        d >= 10 ==> hex_value(((55 + d) as u8) as char) == Some(d as u8),
        d >= 10 ==> hex_value(((87 + d) as u8) as char) == hex_value(((55 + d) as u8) as char),
{
}

/// The lowercase form of `#RRGGBB` reads as the same colour as the uppercase form,
/// with or without the `'#'`.
pub proof fn lemma_lowercase_hex_color_reads_alike(r: u8, g: u8, b: u8)
    ensures
        hex_seed(hex_color_text(r, g, b).map_values(|c: char| ascii_lowercase(c))) == Some((r, g, b)),
        hex_seed(hex_color_text(r, g, b).drop_first().map_values(|c: char| ascii_lowercase(c)))
            == Some((r, g, b)),
        hex_seed(hex_color_text(r, g, b).map_values(|c: char| ascii_lowercase(c))) == hex_seed(
            hex_color_text(r, g, b),
        ),
{
    lemma_hex_color_roundtrip(r, g, b);
    let full = hex_color_text(r, g, b);
    let lower = full.map_values(|c: char| ascii_lowercase(c));
    let body = lower.drop_first();
    assert(full.drop_first().map_values(|c: char| ascii_lowercase(c)) =~= body);
    assert(lower[0] == '#');
    assert(seq!['#'] + body =~= lower);
    assert forall|d: int| 0 <= d < 16 implies {
        let c = ascii_lowercase(#[trigger] hex_digit(d));
        &&& hex_value(c) == Some(d as u8)
        &&& utf8_width(c) == 1
        &&& c != '+'
        &&& c != '#'
        &&& !is_unicode_whitespace(c)
    } by {
        lemma_hex_digits_of_either_case(d);
    }
    let (hr, lr) = (r as int / 16, r as int % 16);
    let (hg, lg) = (g as int / 16, g as int % 16);
    let (hb, lb) = (b as int / 16, b as int % 16);
    assert(body[0] == ascii_lowercase(hex_digit(hr)));
    assert(body[1] == ascii_lowercase(hex_digit(lr)));
    assert(body[2] == ascii_lowercase(hex_digit(hg)));
    assert(body[3] == ascii_lowercase(hex_digit(lg)));
    assert(body[4] == ascii_lowercase(hex_digit(hb)));
    assert(body[5] == ascii_lowercase(hex_digit(lb)));
    assert(hex_digit(hr) == hex_digit(hr));
    assert(hex_digit(lr) == hex_digit(lr));
    assert(hex_digit(hg) == hex_digit(hg));
    assert(hex_digit(lg) == hex_digit(lg));
    assert(hex_digit(hb) == hex_digit(hb));
    assert(hex_digit(lb) == hex_digit(lb));
    assert forall|i: int| 0 <= i < 6 implies utf8_width(#[trigger] body[i]) == 1
        && !is_unicode_whitespace(body[i]) && body[i] != '#' by {}
    lemma_six_digits_read(body, r, g, b);
}

/// Stripping the `'#'` of a `#RRGGBB` text leaves its six digits.
pub proof fn lemma_strip_hex_color(r: u8, g: u8, b: u8)
    ensures
        strip_hashes(hex_color_text(r, g, b)) == hex_byte(r) + hex_byte(g) + hex_byte(b),
{
    let full = hex_color_text(r, g, b);
    lemma_hex_digit_value(r as int / 16);
    assert(full[1] == hex_byte(r)[0]);
    lemma_drop_while_at(full, hash_pred(), 1);
    assert(full.subrange(1, full.len() as int) =~= hex_byte(r) + hex_byte(g) + hex_byte(b));
}

/// Every tonal colour role of a palette built from tones reads back, through the hex
/// reader, as its tone; on the seed colour, the hex reader and the hex writer agree.
pub proof fn lemma_palette_roles_read_back(
    p: NexusPalette,
    r: u8,
    g: u8,
    b: u8,
    tones: PaletteTones,
    light_accent: bool,
)
    requires
        is_palette_from_tones(p, r, g, b, tones, light_accent),
    ensures
        hex_seed(p.primary@) == Some(tones.primary),
        hex_seed(p.secondary@) == Some(tones.secondary),
        hex_seed(p.primary_container@) == Some(tones.primary_container),
        hex_seed(p.on_primary_container@) == Some(tones.on_primary_container),
        hex_seed(p.surface@) == Some(tones.surface),
        hex_seed(p.surface_variant@) == Some(tones.surface_variant),
        hex_seed(p.outline@) == Some(tones.outline),
        hex_seed(p.background@) == Some(tones.background),
{
    lemma_hex_color_roundtrip(tones.primary.0, tones.primary.1, tones.primary.2);
    lemma_hex_color_roundtrip(tones.secondary.0, tones.secondary.1, tones.secondary.2);
    lemma_hex_color_roundtrip(
        tones.primary_container.0,
        tones.primary_container.1,
        tones.primary_container.2,
    );
    lemma_hex_color_roundtrip(
        tones.on_primary_container.0,
        tones.on_primary_container.1,
        tones.on_primary_container.2,
    );
    lemma_hex_color_roundtrip(tones.surface.0, tones.surface.1, tones.surface.2);
    lemma_hex_color_roundtrip(tones.surface_variant.0, tones.surface_variant.1, tones.surface_variant.2);
    lemma_hex_color_roundtrip(tones.outline.0, tones.outline.1, tones.outline.2);
    lemma_hex_color_roundtrip(tones.background.0, tones.background.1, tones.background.2);
}

/// The Hyprland snippet of a palette built from tones draws its active border with the
/// bare six-digit hex of the primary and secondary tones.
/// The active border depends on the seed colour alone: whatever the tones and the accent's
/// lightness, a palette built from seed `(r, g, b)` has the border `rgba(R, G, B, 0.95)` with
/// the seed's decimal channels, so two palettes of one seed share their active border.
pub proof fn lemma_active_border_is_seed_only(
    p1: NexusPalette,
    p2: NexusPalette,
    r: u8,
    g: u8,
    b: u8,
    tones1: PaletteTones,
    tones2: PaletteTones,
    light1: bool,
    light2: bool,
)
    requires
        is_palette_from_tones(p1, r, g, b, tones1, light1),
        is_palette_from_tones(p2, r, g, b, tones2, light2),
    ensures
        p1.active_border@ == p2.active_border@,
        p1.active_border@ == "rgba("@ + dec_text(r as nat) + ", "@ + dec_text(g as nat) + ", "@
            + dec_text(b as nat) + ", 0.95)"@,
{
}

pub proof fn lemma_snippet_of_toned_palette(
    p: NexusPalette,
    r: u8,
    g: u8,
    b: u8,
    tones: PaletteTones,
    light_accent: bool,
)
    requires
        is_palette_from_tones(p, r, g, b, tones, light_accent),
    ensures
        hyprland_text(p) == "general {\n    col.active_border = rgb("@ + hex_of(tones.primary).drop_first()
            + ") rgb("@ + hex_of(tones.secondary).drop_first()
            + ") 45deg\n    col.inactive_border = rgba(30293bee)\n}\n"@,
{
    let t1 = tones.primary;
    let t2 = tones.secondary;
    lemma_strip_hex_color(t1.0, t1.1, t1.2);
    lemma_strip_hex_color(t2.0, t2.1, t2.2);
    assert(hex_of(t1).drop_first() =~= hex_byte(t1.0) + hex_byte(t1.1) + hex_byte(t1.2));
    assert(hex_of(t2).drop_first() =~= hex_byte(t2.0) + hex_byte(t2.1) + hex_byte(t2.2));
}

/// The value of a hexadecimal digit of either case.
fn hex_value_of(c: char) -> (res: Option<u8>)
    ensures
        res == hex_value(c),
{
    let u = c as u32;
    if 48 <= u && u <= 57 {
        Some((u - 48) as u8)
    } else if 97 <= u && u <= 102 {
        Some((u - 87) as u8)
    } else if 65 <= u && u <= 70 {
        Some((u - 55) as u8)
    } else {
        None
    }
}

/// Reads the channel whose two bytes start at `v[q]`; `v[q + 1]` is looked at only
/// where `v[q]` is a single byte.
fn read_channel(v: &Vec<char>, q: usize) -> (res: Option<u8>)
    requires
        q < v@.len(),
        utf8_width(v@[q as int]) == 1 ==> q + 1 < v@.len(),
    ensures
        utf8_width(v@[q as int]) == 1 ==> res == channel_read(v@[q as int], v@[q + 1]),
        utf8_width(v@[q as int]) != 1 ==> res is None,
{
    let n = v.len();
    let a = v[q];
    if utf8_width_of(a) != 1 {
        return None;
    }
    let b = v[q + 1];
    if utf8_width_of(b) != 1 {
        return None;
    }
    if a == '+' {
        hex_value_of(b)
    } else {
        match (hex_value_of(a), hex_value_of(b)) {
            (Some(x), Some(y)) => Some(x * 16 + y),
            _ => None,
        }
    }
}

/// The range of `v` that holds its hexadecimal body.
fn hex_body_range(v: &Vec<char>) -> (res: (usize, usize))
    ensures
    res.0 <= res.1 <= v@.len(),
    v@.subrange(res.0 as int, res.1 as int) == hex_body(v@),
{
    let n = v.len();
    let mut i: usize = 0;
    while i < n && is_whitespace_char(v[i])
        invariant
            n == v@.len(),
            i <= n,
            forall|k: int| 0 <= k < i ==> (whitespace_pred())(#[trigger] v@[k]),
        decreases n - i,
    {
        i = i + 1;
    }
    let mut j: usize = n;
    while j > i && is_whitespace_char(v[j - 1])
        invariant
            n == v@.len(),
            i <= j <= n,
            forall|k: int| j <= k < n ==> (whitespace_pred())(#[trigger] v@[k]),
        decreases j - i,
    {
        j = j - 1;
    }
    let mut k: usize = i;
    while k < j && v[k] == '#'
        invariant
            n == v@.len(),
            i <= k <= j <= n,
            forall|m: int| i <= m < k ==> (hash_pred())(#[trigger] v@[m]),
        decreases j - k,
    {
        k = k + 1;
    }
    let ghost c = v@.subrange(k as int, j as int);
    proof {
        let s = v@;
        lemma_drop_while_at(s, whitespace_pred(), i as int);
        let t = s.subrange(i as int, n as int);
        assert forall|m: int| j - i <= m < t.len() implies (whitespace_pred())(#[trigger] t[m]) by {
            assert(t[m] == s[m + i]);
        }
        lemma_drop_while_end_at(t, whitespace_pred(), j - i);
        let u = t.subrange(0, j - i);
        assert(u =~= s.subrange(i as int, j as int));
        assert forall|m: int| 0 <= m < k - i implies (hash_pred())(#[trigger] u[m]) by {
            assert(u[m] == s[m + i]);
        }
        lemma_drop_while_at(u, hash_pred(), k - i);
        assert(u.subrange(k - i, u.len() as int) =~= c);
        assert(hex_body(v@) == c);
    }
    (k, j)
}

impl NexusPalette {
    /// The seed colour of hexadecimal colour text, as `hex_seed` reads it.
    fn hex_seed_of(hex: &str) -> (res: Option<(u8, u8, u8)>)
        ensures
            res == hex_seed(hex@),
    {
        let v = chars_of(hex);
        let n = v.len();
        let (k, j) = hex_body_range(&v);
        let ghost c = v@.subrange(k as int, j as int);
        let mut bytes: usize = 0;
        let mut p: usize = k;
        while p < j && bytes <= 6
            invariant
                n == v@.len(),
                k <= p <= j <= n,
                bytes <= 10,
                bytes == utf8_len(v@.subrange(k as int, p as int)),
            decreases j - p,
        {
            let ghost before = v@.subrange(k as int, p as int);
            bytes = bytes + utf8_width_of(v[p]);
            p = p + 1;
            assert(v@.subrange(k as int, p as int).drop_last() =~= before);
        }
        proof {
            lemma_utf8_len_split(c, p - k);
            assert(c.subrange(0, p - k) =~= v@.subrange(k as int, p as int));
        }
        if p < j || bytes != 6 {
            return None;
        }
        assert(utf8_len(c) == 6);
        proof {
            lemma_utf8_len_first(c);
            if utf8_width(c[0]) == 1 {
                lemma_utf8_len_first(c.subrange(1, c.len() as int));
            }
        }
        let r = match read_channel(&v, k) {
            Some(x) => x,
            None => {
                return None;
            },
        };
        proof {
            lemma_utf8_len_split(c, 2);
            let c2 = c.subrange(2, c.len() as int);
            lemma_utf8_len_single_bytes(c, 2);
            lemma_utf8_len_first(c2);
            if utf8_width(c2[0]) == 1 {
                lemma_utf8_len_first(c2.subrange(1, c2.len() as int));
            }
        }
        let g = match read_channel(&v, k + 2) {
            Some(x) => x,
            None => {
                return None;
            },
        };
        proof {
            lemma_utf8_len_split(c, 4);
            let c4 = c.subrange(4, c.len() as int);
            lemma_utf8_len_single_bytes(c, 4);
            lemma_utf8_len_first(c4);
            if utf8_width(c4[0]) == 1 {
                lemma_utf8_len_first(c4.subrange(1, c4.len() as int));
            }
        }
        let b = match read_channel(&v, k + 4) {
            Some(x) => x,
            None => {
                return None;
            },
        };
        Some((r, g, b))
    }


    /// Read the seed colour of hexadecimal colour text such as `"#38BDF8"` or `"38BDF8"`:
    /// surrounding whitespace and leading `'#'` are ignored, and the rest must be three
    /// two-digit channels, each an optional `'+'` and hexadecimal digits of either case.
    /// Any other text is `InvalidHex`, carrying the text as given.
    pub fn seed_from_hex(hex: &str) -> (res: Result<(u8, u8, u8), ThemeError>)
        ensures
            match hex_seed(hex@) {
                Some(rgb) => res matches Ok(x) && x == rgb,
                None => res matches Err(ThemeError::InvalidHex(text)) && text@ == hex@,
            },
    {
        match Self::hex_seed_of(hex) {
            Some(rgb) => Ok(rgb),
            None => Err(ThemeError::InvalidHex(hex.to_owned())),
        }
    }

    /// The palette the daemon starts with: the wallpaper's palette when a wallpaper is
    /// configured (`Some`) and it could be built, else the accent colour's palette when it
    /// could be built, else the default palette.
    pub fn startup_palette(
        wallpaper: Option<Result<NexusPalette, ThemeError>>,
        accent: Result<NexusPalette, ThemeError>,
    ) -> (res: Self)
        ensures
            match wallpaper {
                Some(Ok(p)) => res == p,
                _ => match accent {
                    Ok(p) => res == p,
                    Err(_) => is_default_palette(res),
                },
            },
    {
        match wallpaper {
            Some(Ok(p)) => p,
            _ => match accent {
                Ok(p) => p,
                Err(_) => NexusPalette::default(),
            },
        }
    }

    /// Decode an image file's contents (`bytes`, with the file name's `extension` naming its
    /// format) into the 64x64 nearest-neighbour thumbnail whose pixels are sampled for the
    /// dominant colour. A file whose format is not known, or that does not decode, is an
    /// `Image` error.
    pub fn wallpaper_thumbnail(bytes: &[u8], extension: &str) -> (res: Result<
        Vec<(u8, u8, u8)>,
        ThemeError,
    >)
        ensures
            res is Ok <==> extension_names_format(extension@) && image_decodes(bytes@, extension@),
            res matches Ok(px) ==> px@ == thumbnail_pixels(bytes@, extension@, 64, 64, ResampleFilter::Nearest)
                && px@.len() == 4096,
            res is Err ==> res matches Err(ThemeError::Image(_)),
    {
        match decode_resized(bytes, extension, 64, 64, ResampleFilter::Nearest) {
            Some(Ok(px)) => Ok(px),
            Some(Err(e)) => Err(ThemeError::Image(e)),
            None => {
                if extension.is_empty() {
                    Err(ThemeError::Image(missing_format_error()))
                } else {
                    Err(ThemeError::Image(unknown_extension_error(extension)))
                }
            },
        }
    }

    /// Build the palette of seed colour `(r, g, b)` from its tonal colours;
    /// `light_accent` tells whether the accent is light enough for dark text on it.
    pub fn from_tones(r: u8, g: u8, b: u8, tones: &PaletteTones, light_accent: bool) -> (p: Self)
        ensures
            is_palette_from_tones(p, r, g, b, *tones, light_accent),
            p.active_border@ == border_text(r, g, b),
    {
        let on_primary = if light_accent {
            "#050B14".to_owned()
        } else {
            "#FFFFFF".to_owned()
        };
        NexusPalette {
            primary: hex_color(tones.primary),
            on_primary,
            primary_container: hex_color(tones.primary_container),
            on_primary_container: hex_color(tones.on_primary_container),
            secondary: hex_color(tones.secondary),
            surface: hex_color(tones.surface),
            on_surface: "#F8FAFC".to_owned(),
            surface_variant: hex_color(tones.surface_variant),
            outline: hex_color(tones.outline),
            background: hex_color(tones.background),
            active_border: active_border_rgba(r, g, b),
            inactive_border: "rgba(40, 48, 66, 0.60)".to_owned(),
        }
    }

    /// Export the palette as CSS variables for GTK4 and web styling.
    pub fn to_css(&self) -> (res: String)
        ensures
            res@ == css_text(*self),
    {
        let mut s = String::new();
        s.append(":root {\n  --nexus-primary: ");
        s.append(self.primary.as_str());
        s.append(";\n  --nexus-on-primary: ");
        s.append(self.on_primary.as_str());
        s.append(";\n  --nexus-primary-container: ");
        s.append(self.primary_container.as_str());
        s.append(";\n  --nexus-on-primary-container: ");
        s.append(self.on_primary_container.as_str());
        s.append(";\n  --nexus-secondary: ");
        s.append(self.secondary.as_str());
        s.append(";\n  --nexus-surface: ");
        s.append(self.surface.as_str());
        s.append(";\n  --nexus-on-surface: ");
        s.append(self.on_surface.as_str());
        s.append(";\n  --nexus-surface-variant: ");
        s.append(self.surface_variant.as_str());
        s.append(";\n  --nexus-outline: ");
        s.append(self.outline.as_str());
        s.append(";\n  --nexus-background: ");
        s.append(self.background.as_str());
        s.append(";\n}\n");
        s
    }

    /// Export the palette as a Hyprland config snippet (`col.active_border`).
    pub fn to_hyprland_snippet(&self) -> (res: String)
        ensures
            res@ == hyprland_text(*self),
    {
        let primary_hex = strip_leading_hashes(self.primary.as_str());
        let secondary_hex = strip_leading_hashes(self.secondary.as_str());
        let mut s = String::new();
        s.append("general {\n    col.active_border = rgb(");
        s.append(primary_hex.as_str());
        s.append(") rgb(");
        s.append(secondary_hex.as_str());
        s.append(") 45deg\n    col.inactive_border = rgba(30293bee)\n}\n");
        s
    }
}

/// Render a colour as `#RRGGBB` with uppercase hexadecimal digits.
pub fn format_hex_color(r: u8, g: u8, b: u8) -> (res: String)
    ensures
        res@ == hex_color_text(r, g, b),
{
    let mut s = String::new();
    push_char(&mut s, '#');
    push_hex_byte(&mut s, r);
    push_hex_byte(&mut s, g);
    push_hex_byte(&mut s, b);
    assert(s@ =~= hex_color_text(r, g, b));
    s
}

fn hex_color(c: (u8, u8, u8)) -> (res: String)
    ensures
        res@ == hex_of(c),
{
    format_hex_color(c.0, c.1, c.2)
}

/// The active border colour of a seed colour: `rgba(R, G, B, 0.95)`.
pub fn active_border_rgba(r: u8, g: u8, b: u8) -> (res: String)
    ensures
        res@ == border_text(r, g, b),
{
    let mut s = String::new();
    s.append("rgba(");
    push_decimal(&mut s, r);
    s.append(", ");
    push_decimal(&mut s, g);
    s.append(", ");
    push_decimal(&mut s, b);
    s.append(", 0.95)");
    s
}

} // verus!

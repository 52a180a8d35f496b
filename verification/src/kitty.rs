//! The kitty graphics protocol commands that show a cover image in the terminal.
use vstd::prelude::*;
use base64::Engine;
use image::ImageEncoder;
use crate::artwork::{file_extension, split_file_name};
use crate::text::{
    chars_eq_str, chars_to_ascii_lower, decimal, lower_all, push_chars, push_decimal, str_chars,
    string_from_chars,
};

verus! {

/// Payload characters sent per command.
pub const KITTY_CHUNK_SIZE: usize = 4096;

/// The image id every cover is transmitted under.
pub const KITTY_IMAGE_ID: u32 = 4242;

/// A cell rectangle of the terminal.
#[derive(Debug, Clone, Copy, PartialEq, Eq, Structural)]
pub struct ImageArea {
    pub x: u16,
    pub y: u16,
    pub width: u16,
    pub height: u16,
}

impl ImageArea {
    pub fn new(x: u16, y: u16, width: u16, height: u16) -> (r: Self)
        ensures
            r == (ImageArea { x, y, width, height }),
    {
        ImageArea { x, y, width, height }
    }
}

/// The first command of a transmission: place the image over `width` x `height`
/// cells, quietly (`q=2`, no replies into a full-screen application).
pub open spec fn first_chunk_command(width: u16, height: u16, chunk: Seq<char>, more: u8) -> Seq<
    char,
> {
    "\x1b_Ga=T,f=100,i="@ + decimal(KITTY_IMAGE_ID as nat) + ",q=2,c="@ + decimal(width as nat)
        + ",r="@ + decimal(height as nat) + ",C=1,m="@ + decimal(more as nat) + ";"@ + chunk
        + "\x1b\\"@
}

/// A later command of a transmission.
pub open spec fn next_chunk_command(chunk: Seq<char>, more: u8) -> Seq<char> {
    "\x1b_Gm="@ + decimal(more as nat) + ";"@ + chunk + "\x1b\\"@
}

/// The command that deletes the cover image.
pub open spec fn clear_command() -> Seq<char> {
    "\x1b_Ga=d,d=I,i="@ + decimal(KITTY_IMAGE_ID as nat) + "\x1b\\"@
}

fn push_lit(out: &mut Vec<char>, s: &str)
    ensures
        final(out)@ == old(out)@ + s@,
{
    let cs = str_chars(s);
    push_chars(out, &cs);
}

/// The first command of a transmission of `chunk` over the area.
pub fn kitty_transmit_chunk(area: ImageArea, chunk: &str, more: u8) -> (r: String)
    ensures
        r@ == first_chunk_command(area.width, area.height, chunk@, more),
{
    let mut o: Vec<char> = Vec::new();
    push_lit(&mut o, "\x1b_Ga=T,f=100,i=");
    push_decimal(&mut o, KITTY_IMAGE_ID as u64);
    push_lit(&mut o, ",q=2,c=");
    push_decimal(&mut o, area.width as u64);
    push_lit(&mut o, ",r=");
    push_decimal(&mut o, area.height as u64);
    push_lit(&mut o, ",C=1,m=");
    push_decimal(&mut o, more as u64);
    push_lit(&mut o, ";");
    push_lit(&mut o, chunk);
    push_lit(&mut o, "\x1b\\");
    string_from_chars(o.as_slice())
}

fn next_chunk(chunk: &Vec<char>, more: u8) -> (r: String)
    ensures
        r@ == next_chunk_command(chunk@, more),
{
    let mut o: Vec<char> = Vec::new();
    push_lit(&mut o, "\x1b_Gm=");
    push_decimal(&mut o, more as u64);
    push_lit(&mut o, ";");
    push_chars(&mut o, chunk);
    push_lit(&mut o, "\x1b\\");
    string_from_chars(o.as_slice())
}

/// The command that deletes the cover image.
pub fn kitty_clear_command() -> (r: String)
    ensures
        r@ == clear_command(),
{
    let mut o: Vec<char> = Vec::new();
    push_lit(&mut o, "\x1b_Ga=d,d=I,i=");
    push_decimal(&mut o, KITTY_IMAGE_ID as u64);
    push_lit(&mut o, "\x1b\\");
    string_from_chars(o.as_slice())
}

/// The commands that send `payload[offset..]`, a chunk of at most `KITTY_CHUNK_SIZE`
/// characters each; `m=1` while more follows.
pub open spec fn chunk_commands(area: ImageArea, payload: Seq<char>, offset: int) -> Seq<Seq<char>>
    decreases payload.len() - offset,
{
    if offset < 0 || offset >= payload.len() {
        seq![]
    } else {
        let end = if offset + KITTY_CHUNK_SIZE < payload.len() {
            offset + KITTY_CHUNK_SIZE
        } else {
            payload.len() as int
        };
        let chunk = payload.subrange(offset, end);
        let more: u8 = if end < payload.len() {
            1
        } else {
            0
        };
        let cmd = if offset == 0 {
            first_chunk_command(area.width, area.height, chunk, more)
        } else {
            next_chunk_command(chunk, more)
        };
        seq![cmd] + chunk_commands(area, payload, end)
    }
}

/// The commands that transmit a base64 payload over the area; none for an empty area.
pub open spec fn transmit_commands_spec(area: ImageArea, payload: Seq<char>) -> Seq<Seq<char>> {
    if area.width == 0 || area.height == 0 {
        seq![]
    } else {
        chunk_commands(area, payload, 0)
    }
}

/// The commands that transmit the base64 `payload` over the area.
pub fn kitty_commands_for_payload(area: ImageArea, payload: &str) -> (r: Vec<String>)
    ensures
        r@.map_values(|s: String| s@) == transmit_commands_spec(area, payload@),
{
    let mut out: Vec<String> = Vec::new();
    if area.width == 0 || area.height == 0 {
        assert(out@.map_values(|s: String| s@) =~= Seq::<Seq<char>>::empty());
        return out;
    }
    let p = str_chars(payload);
    let n = p.len();
    let mut offset: usize = 0;
    assert(out@.map_values(|s: String| s@) + chunk_commands(area, p@, 0) =~= chunk_commands(
        area,
        p@,
        0,
    ));
    while offset < n
        invariant
            n == p@.len(),
            p@ == payload@,
            offset <= n,
            area.width != 0 && area.height != 0,
            out@.map_values(|s: String| s@) + chunk_commands(area, p@, offset as int)
                == chunk_commands(area, p@, 0),
        decreases n - offset,
    {
        let end: usize = if n - offset > KITTY_CHUNK_SIZE {
            offset + KITTY_CHUNK_SIZE
        } else {
            n
        };
        let chunk = crate::text::chars_range(&p, offset, end);
        let more: u8 = if end < n {
            1
        } else {
            0
        };
        let cmd = if offset == 0 {
            let text = string_from_chars(chunk.as_slice());
            kitty_transmit_chunk(area, text.as_str(), more)
        } else {
            next_chunk(&chunk, more)
        };
        let ghost before = out@.map_values(|s: String| s@);
        let ghost cv = cmd@;
        out.push(cmd);
        proof {
            assert(out@.map_values(|s: String| s@) =~= before.push(cv));
            assert(before.push(cv) + chunk_commands(area, p@, end as int) =~= before + chunk_commands(
                area,
                p@,
                offset as int,
            ));
        }
        offset = end;
    }
    assert(out@.map_values(|s: String| s@) + chunk_commands(area, p@, offset as int)
        =~= out@.map_values(|s: String| s@));
    out
}

/// The character of the standard base64 alphabet (RFC 4648) for a six-bit value.
pub open spec fn base64_digit(v: int) -> char {
    if v < 26 {
        (65 + v) as char
    } else if v < 52 {
        (97 + v - 26) as char
    } else if v < 62 {
        (48 + v - 52) as char
    } else if v == 62 {
        '+'
    } else {
        '/'
    }
}

/// The standard padded base64 encoding of `b`: each group of three bytes, read as a
/// 24-bit number, becomes four characters of six bits each; a last group of one or
/// two bytes is filled with zero bits and the missing characters are `=`.
pub open spec fn base64_spec(b: Seq<u8>) -> Seq<char>
    decreases b.len(),
{
    if b.len() == 0 {
        seq![]
    } else if b.len() == 1 {
        let n = b[0] * 65536;
        seq![base64_digit(n / 262144), base64_digit((n / 4096) % 64), '=', '=']
    } else if b.len() == 2 {
        let n = b[0] * 65536 + b[1] * 256;
        seq![
            base64_digit(n / 262144),
            base64_digit((n / 4096) % 64),
            base64_digit((n / 64) % 64),
            '=',
        ]
    } else {
        let n = b[0] * 65536 + b[1] * 256 + b[2];
        seq![
            base64_digit(n / 262144),
            base64_digit((n / 4096) % 64),
            base64_digit((n / 64) % 64),
            base64_digit(n % 64),
        ] + base64_spec(b.subrange(3, b.len() as int))
    }
}

/// `base64::engine::general_purpose::STANDARD.encode`: the standard alphabet with `=`
/// padding, as `base64_spec` writes it out. The crate panics when the encoded length
/// overflows `usize`, which the bound on the input rules out. (Its output is ASCII, so
/// the chunks cut by character are the chunks the protocol cuts by byte.)
#[verifier::external_body]
fn base64_encode(bytes: &[u8]) -> (r: String)
    requires
        bytes@.len() <= usize::MAX / 2,
    ensures
        r@ == base64_spec(bytes@),
{
    base64::engine::general_purpose::STANDARD.encode(bytes)
}

// ---------------------------------------------------------------------------
// The PNG payload of a cover.
// ---------------------------------------------------------------------------

/// Whether a file name has the `png` extension, in any case.
pub open spec fn is_png_name(name: Seq<char>) -> bool {
    match file_extension(name) {
        Some(e) => lower_all(e) == "png"@,
        None => false,
    }
}

/// The picture formats a cover is decoded from.
#[derive(Debug, Clone, Copy, PartialEq, Eq, Structural)]
pub enum CoverFormat {
    Png,
    Jpeg,
    WebP,
}

/// The format a cover file is decoded as, chosen by its extension in any case, as
/// `image` chooses it for the formats this library builds it with; `None` for any
/// other extension.
pub open spec fn cover_format_spec(name: Seq<char>) -> Option<CoverFormat> {
    match file_extension(name) {
        Some(e) => {
            let l = lower_all(e);
            if l == "png"@ || l == "apng"@ {
                Some(CoverFormat::Png)
            } else if l == "jpg"@ || l == "jpeg"@ || l == "jfif"@ {
                Some(CoverFormat::Jpeg)
            } else if l == "webp"@ {
                Some(CoverFormat::WebP)
            } else {
                None
            }
        },
        None => None,
    }
}

/// The decode format for a file name.
pub fn cover_format(file_name: &str) -> (r: Option<CoverFormat>)
    ensures
        r == cover_format_spec(file_name@),
{
    let name = str_chars(file_name);
    let (_, ext) = split_file_name(&name);
    match ext {
        Some(e) => {
            let l = chars_to_ascii_lower(&e);
            if chars_eq_str(&l, "png") || chars_eq_str(&l, "apng") {
                Some(CoverFormat::Png)
            } else if chars_eq_str(&l, "jpg") || chars_eq_str(&l, "jpeg") || chars_eq_str(
                &l,
                "jfif",
            ) {
                Some(CoverFormat::Jpeg)
            } else if chars_eq_str(&l, "webp") {
                Some(CoverFormat::WebP)
            } else {
                None
            }
        },
        None => None,
    }
}

/// Whether `image` decodes `bytes` as a picture in `format`.
pub uninterp spec fn decodes(bytes: Seq<u8>, format: CoverFormat) -> bool;

/// `image::load_from_memory_with_format` followed by `DynamicImage::to_rgba8`: the
/// width, height and RGBA samples of the picture, or the decoder's error message.
/// Whether decoding succeeds is named as a function of the bytes and the format. On
/// success there are four samples per pixel: the decoder fills a buffer of width x
/// height x bytes-per-pixel (`ImageDecoder::total_bytes`, `decoder_to_vec`), and the
/// conversion to RGBA8 either keeps an RGBA8 buffer or builds one of that size
/// (`ImageBuffer::new`). The samples themselves are left unsaid: the JPEG decoder
/// picks its arithmetic by the machine's CPU.
#[verifier::external_body]
fn decode_rgba(bytes: &[u8], format: CoverFormat) -> (r: Result<(u32, u32, Vec<u8>), String>)
    ensures
        r is Ok <==> decodes(bytes@, format),
        r matches Ok((w, h, px)) ==> px@.len() == w * 4 * h,
{
    let format = match format {
        CoverFormat::Png => image::ImageFormat::Png,
        CoverFormat::Jpeg => image::ImageFormat::Jpeg,
        CoverFormat::WebP => image::ImageFormat::WebP,
    };
    match image::load_from_memory_with_format(bytes, format) {
        Ok(picture) => {
            let rgba = picture.to_rgba8();
            Ok((rgba.width(), rgba.height(), rgba.into_raw()))
        },
        Err(error) => Err(error.to_string()),
    }
}

/// The PNG file that `image`'s PNG encoder writes for a `width` x `height` RGBA
/// picture; `None` where it fails.
pub uninterp spec fn png_encoding(width: u32, height: u32, rgba: Seq<u8>) -> Option<Seq<u8>>;

/// `image::codecs::png::PngEncoder::write_image` with RGBA8 samples. The encoder
/// panics unless the samples are exactly `width * height * 4` bytes, which the
/// `requires` asks for. The contract names the encoded file; its bytes, and the error
/// message, are left unsaid.
#[verifier::external_body]
fn encode_png(width: u32, height: u32, rgba: &[u8]) -> (r: Result<Vec<u8>, String>)
    requires
        rgba@.len() == width * 4 * height,
    ensures
        match r {
            Ok(v) => png_encoding(width, height, rgba@) == Some(v@),
            Err(_) => png_encoding(width, height, rgba@) is None,
        },
{
    let mut encoded: Vec<u8> = Vec::new();
    let encoder = image::codecs::png::PngEncoder::new(&mut encoded);
    match encoder.write_image(rgba, width, height, image::ExtendedColorType::Rgba8) {
        Ok(()) => Ok(encoded),
        Err(error) => Err(error.to_string()),
    }
}

/// The PNG encoding of a decoded `width` x `height` picture: an error where the
/// samples are not four per pixel or the encoder fails.
pub fn encode_decoded(width: u32, height: u32, pixels: Vec<u8>) -> (r: Result<Vec<u8>, String>)
    ensures
        pixels@.len() != width * 4 * height ==> r is Err,
        pixels@.len() == width * 4 * height ==> (r is Ok <==> png_encoding(
            width,
            height,
            pixels@,
        ) is Some),
        r matches Ok(v) ==> pixels@.len() == width * 4 * height && png_encoding(
            width,
            height,
            pixels@,
        ) == Some(v@),
{
    let wide: u128 = width as u128 * 4;
    assert(wide * (height as u128) <= 0x4_0000_0000_0000_0000) by (nonlinear_arith)
        requires
            wide <= 0x4_0000_0000,
            height <= 0xffff_ffff,
    ;
    let expected: u128 = wide * height as u128;
    if pixels.len() as u128 != expected {
        return Err(String::from_str("decoded picture has the wrong number of samples"));
    }
    encode_png(width, height, pixels.as_slice())
}

/// The PNG payload of the cover file `file_name` whose contents are `bytes`: the file
/// itself when it is a PNG, otherwise the picture decoded by the format its extension
/// names and encoded again as PNG; an error for any other extension, or where the
/// picture cannot be decoded or encoded.
pub fn cover_png(file_name: &str, bytes: Vec<u8>) -> (r: Result<Vec<u8>, String>)
    ensures
        is_png_name(file_name@) ==> r == Ok::<Vec<u8>, String>(bytes),
        !is_png_name(file_name@) && cover_format_spec(file_name@) is None ==> r is Err,
        !is_png_name(file_name@) ==> (cover_format_spec(file_name@) matches Some(f) && !decodes(
            bytes@,
            f,
        ) ==> r is Err),
        !is_png_name(file_name@) ==> (cover_format_spec(file_name@) matches Some(f) && decodes(
            bytes@,
            f,
        ) ==> {
            &&& r matches Ok(v) ==> exists|w: u32, h: u32, px: Seq<u8>|
                px.len() == w * 4 * h && #[trigger] png_encoding(w, h, px) == Some(v@)
            &&& r is Err ==> exists|w: u32, h: u32, px: Seq<u8>|
                px.len() == w * 4 * h && #[trigger] png_encoding(w, h, px) is None
        }),
{
    let name = str_chars(file_name);
    let (_, ext) = split_file_name(&name);
    let png = match ext {
        Some(e) => chars_eq_str(&chars_to_ascii_lower(&e), "png"),
        None => false,
    };
    if png {
        return Ok(bytes);
    }
    let format = match cover_format(file_name) {
        Some(f) => f,
        None => {
            return Err(String::from_str("unsupported image format"));
        },
    };
    let (width, height, pixels) = match decode_rgba(bytes.as_slice(), format) {
        Ok(picture) => picture,
        Err(error) => {
            return Err(error);
        },
    };
    let ghost px = pixels@;
    let r = encode_decoded(width, height, pixels);
    proof {
        if r is Err {
            assert(px.len() == width * 4 * height && png_encoding(width, height, px) is None);
        }
    }
    r
}

/// The commands that transmit an encoded PNG image over the area.
pub fn kitty_transmit_commands(area: ImageArea, png_bytes: &[u8]) -> (r: Vec<String>)
    requires
        png_bytes@.len() <= usize::MAX / 2,
    ensures
        r@.map_values(|s: String| s@) == transmit_commands_spec(area, base64_spec(png_bytes@)),
{
    let payload = base64_encode(png_bytes);
    kitty_commands_for_payload(area, payload.as_str())
}

} // verus!

//! Image kinds, decoding files into RGBA samples and encoding difference
//! images as PNG, through the `image` crate.

use crate::diff::{sample_count, RgbaImage};
use crate::paths::{FilePath, PathModel};
use vstd::prelude::*;
use vstd::string::StrSliceExecFns;

verus! {

#[verifier::external_type_specification]
#[verifier::external_body]
pub struct ExImageError(image::ImageError);

/// The kinds of image file that a run compares.
#[derive(Clone, Copy, Debug, PartialEq, Eq, Structural)]
pub enum ImageKind {
    Bmp,
    Png,
}

/// Why an image of a pair could not be loaded.
#[derive(Debug)]
pub enum LoadError {
    /// The file could not be read; the message says why.
    Unreadable(String),
    /// The file name carries no extension of a known image kind.
    UnknownKind,
    /// The destination file is of another kind than the source file.
    KindMismatch,
    /// The codec refused the bytes.
    Codec(image::ImageError),
    /// The codec returned a sample buffer that does not fit its dimensions.
    Malformed,
}

/// A file of a pair with the outcome of loading it.
#[derive(Debug)]
pub struct DiffImage {
    pub path: FilePath,
    pub image: Result<RgbaImage, LoadError>,
}

/// Position of the last `.` among the first `n` characters, or -1.
pub open spec fn last_dot(name: Seq<char>, n: int) -> int
    decreases n,
{
    if n <= 0 {
        -1
    } else if name[n - 1] == '.' {
        n - 1
    } else {
        last_dot(name, n - 1)
    }
}

/// The extension of a file name: what follows its last `.`, provided the
/// name does not begin with that `.`.
pub open spec fn extension(name: Seq<char>) -> Option<Seq<char>> {
    let d = last_dot(name, name.len() as int);
    if d > 0 {
        Some(name.subrange(d + 1, name.len() as int))
    } else {
        None
    }
}

/// Whether `e` spells the three letters given, in either case.
pub open spec fn spells(e: Seq<char>, lower: Seq<char>, upper: Seq<char>) -> bool {
    &&& e.len() == 3
    &&& lower.len() == 3
    &&& upper.len() == 3
    &&& forall|i: int| 0 <= i < 3 ==> #[trigger] e[i] == lower[i] || e[i] == upper[i]
}

/// The kind that a file extension names, ignoring case.
pub open spec fn kind_of_extension(e: Seq<char>) -> Option<ImageKind> {
    if spells(e, seq!['b', 'm', 'p'], seq!['B', 'M', 'P']) {
        Some(ImageKind::Bmp)
    } else if spells(e, seq!['p', 'n', 'g'], seq!['P', 'N', 'G']) {
        Some(ImageKind::Png)
    } else {
        None
    }
}

/// The kind of the file at `path`, from the extension of its last component.
pub open spec fn kind_of_path(path: PathModel) -> Option<ImageKind> {
    if path.len() == 0 {
        None
    } else {
        match extension(path.last()) {
            Some(e) => kind_of_extension(e),
            None => None,
        }
    }
}

/// What the codec makes of `bytes` read as an image of `kind`: the width,
/// height and RGBA samples, or `None` when it refuses them.
pub uninterp spec fn rgba_decoding(bytes: Seq<u8>, kind: ImageKind) -> Option<(u32, u32, Seq<u8>)>;

/// The PNG encoding of an RGBA image, or `None` when the encoder refuses it.
pub uninterp spec fn png_encoding(width: u32, height: u32, pixels: Seq<u8>) -> Option<Seq<u8>>;

/// Relies on image::load_from_memory_with_format, which decodes `bytes` in
/// the format given, and on DynamicImage::into_rgba8 and
/// ImageBuffer::into_raw, which turn the result into RGBA samples. The
/// outcome depends on the bytes and the format alone.
#[verifier::external_body]
fn decode_rgba(bytes: &Vec<u8>, kind: ImageKind) -> (r: Result<
    (u32, u32, Vec<u8>),
    image::ImageError,
>)
    ensures
        match r {
            Ok(t) => rgba_decoding(bytes@, kind) == Some((t.0, t.1, t.2@)),
            Err(_) => rgba_decoding(bytes@, kind) is None,
        },
{
    let format = match kind {
        ImageKind::Bmp => image::ImageFormat::Bmp,
        ImageKind::Png => image::ImageFormat::Png,
    };
    match image::load_from_memory_with_format(bytes, format) {
        Ok(img) => {
            let rgba = img.into_rgba8();
            Ok((rgba.width(), rgba.height(), rgba.into_raw()))
        },
        Err(e) => Err(e),
    }
}

/// Relies on image::write_buffer_with_format with ImageOutputFormat::Png,
/// which encodes RGBA samples as PNG into a writer; its encoder panics unless
/// the buffer holds four samples per pixel. The outcome depends on the
/// samples and the dimensions alone.
#[verifier::external_body]
fn encode_png(img: &RgbaImage) -> (r: Result<Vec<u8>, image::ImageError>)
    requires
        img.wf(),
    ensures
        match r {
            Ok(b) => png_encoding(img.width, img.height, img.pixels@) == Some(b@),
            Err(_) => png_encoding(img.width, img.height, img.pixels@) is None,
        },
{
    let mut out = std::io::Cursor::new(Vec::new());
    let (png, rgba) = (image::ImageOutputFormat::Png, image::ColorType::Rgba8);
    match image::write_buffer_with_format(&mut out, &img.pixels, img.width, img.height, rgba, png) {
        Ok(()) => Ok(out.into_inner()),
        Err(e) => Err(e),
    }
}

/// Encodes an image as PNG bytes.
pub fn encode_image(img: &RgbaImage) -> (r: Result<Vec<u8>, image::ImageError>)
    requires
        img.wf(),
    ensures
        r is Ok <==> png_encoding(img.width, img.height, img.pixels@) is Some,
        r matches Ok(b) ==> png_encoding(img.width, img.height, img.pixels@) == Some(b@),
{
    encode_png(img)
}

fn spells_exec(name: &str, from: usize, lower: &str, upper: &str) -> (r: bool)
    requires
        from <= name@.len(),
        lower@.len() == 3,
        upper@.len() == 3,
    ensures
        r == spells(name@.subrange(from as int, name@.len() as int), lower@, upper@),
{
    let n = name.unicode_len();
    if n - from != 3 {
        return false;
    }
    let mut i: usize = 0;
    while i < 3
        invariant
            n == name@.len(),
            n - from == 3,
            lower@.len() == 3,
            upper@.len() == 3,
            i <= 3,
            forall|j: int|
                0 <= j < i ==> name@[from + j] == lower@[j] || name@[from + j] == upper@[j],
        decreases 3 - i,
    {
        let c = name.get_char(from + i);
        if c != lower.get_char(i) && c != upper.get_char(i) {
            assert(name@.subrange(from as int, n as int)[i as int] == c);
            return false;
        }
        i = i + 1;
    }
    let ghost e = name@.subrange(from as int, n as int);
    assert forall|j: int| 0 <= j < 3 implies #[trigger] e[j] == lower@[j] || e[j] == upper@[j] by {
        assert(e[j] == name@[from + j]);
    }
    true
}

/// The kind of an image file, from the extension of its name, ignoring case.
pub fn image_kind(path: &FilePath) -> (r: Option<ImageKind>)
    ensures
        r == kind_of_path(path@),
{
    let k = path.parts.len();
    if k == 0 {
        return None;
    }
    let name = path.parts[k - 1].as_str();
    assert(name@ == path@.last());
    let n = name.unicode_len();
    let mut i: usize = n;
    while i > 0 && name.get_char(i - 1) != '.'
        invariant
            n == name@.len(),
            i <= n,
            last_dot(name@, n as int) == last_dot(name@, i as int),
        decreases i,
    {
        i = i - 1;
    }
    if i <= 1 {
        return None;
    }
    let d = i - 1;
    proof {
        reveal_strlit("bmp");
        reveal_strlit("BMP");
        reveal_strlit("png");
        reveal_strlit("PNG");
    }
    if spells_exec(name, d + 1, "bmp", "BMP") {
        Some(ImageKind::Bmp)
    } else if spells_exec(name, d + 1, "png", "PNG") {
        Some(ImageKind::Png)
    } else {
        None
    }
}

/// Whether `img` is a well-formed image with exactly the dimensions and
/// samples of `t`.
pub open spec fn holds(img: RgbaImage, t: (u32, u32, Seq<u8>)) -> bool {
    img.width == t.0 && img.height == t.1 && img.pixels@ == t.2 && img.wf()
}

/// Whether `r` is the outcome of decoding `bytes` as an image of `kind`.
pub open spec fn decode_outcome(
    kind: Option<ImageKind>,
    bytes: Seq<u8>,
    r: Result<RgbaImage, LoadError>,
) -> bool {
    match kind {
        None => r matches Err(LoadError::UnknownKind),
        Some(k) => match rgba_decoding(bytes, k) {
            None => r matches Err(LoadError::Codec(_)),
            Some(t) => if t.2.len() == sample_count(t.0, t.1) {
                r matches Ok(img) && holds(img, t)
            } else {
                r matches Err(LoadError::Malformed)
            },
        },
    }
}

/// Whether `r` is the outcome of loading a file whose bytes were read as
/// `read`, as an image of `kind`.
pub open spec fn load_outcome(
    kind: Option<ImageKind>,
    read: Result<Vec<u8>, String>,
    r: Result<RgbaImage, LoadError>,
) -> bool {
    match read {
        Err(m) => r == Err::<RgbaImage, LoadError>(LoadError::Unreadable(m)),
        Ok(b) => decode_outcome(kind, b@, r),
    }
}

/// Decodes the bytes of an image of the given kind into RGBA samples.
pub fn decode_image(kind: Option<ImageKind>, bytes: &Vec<u8>) -> (r: Result<RgbaImage, LoadError>)
    ensures
        decode_outcome(kind, bytes@, r),
{
    match kind {
        None => Err(LoadError::UnknownKind),
        Some(k) => match decode_rgba(bytes, k) {
            Err(e) => Err(LoadError::Codec(e)),
            Ok(t) => {
                let (width, height, pixels) = t;
                match RgbaImage::from_raw(width, height, pixels) {
                    Some(img) => Ok(img),
                    None => Err(LoadError::Malformed),
                }
            },
        },
    }
}

fn load_one(kind: Option<ImageKind>, read: Result<Vec<u8>, String>) -> (r: Result<
    RgbaImage,
    LoadError,
>)
    ensures
        load_outcome(kind, read, r),
{
    match read {
        Err(m) => Err(LoadError::Unreadable(m)),
        Ok(b) => decode_image(kind, &b),
    }
}

/// Loads both files of a pair from the bytes read from them. Each is decoded
/// as the kind its extension names; a destination of another kind than its
/// source is refused without decoding it.
pub fn load_pair(
    source: FilePath,
    source_bytes: Result<Vec<u8>, String>,
    destination: FilePath,
    destination_bytes: Result<Vec<u8>, String>,
) -> (r: (DiffImage, DiffImage))
    ensures
        r.0.path@ == source@,
        r.1.path@ == destination@,
        load_outcome(kind_of_path(source@), source_bytes, r.0.image),
        kind_of_path(source@) != kind_of_path(destination@) ==> r.1.image matches Err(
            LoadError::KindMismatch,
        ),
        kind_of_path(source@) == kind_of_path(destination@) ==> load_outcome(
            kind_of_path(destination@),
            destination_bytes,
            r.1.image,
        ),
{
    let source_kind = image_kind(&source);
    let destination_kind = image_kind(&destination);
    let source_image = load_one(source_kind, source_bytes);
    let destination_image = if source_kind != destination_kind {
        Err(LoadError::KindMismatch)
    } else {
        load_one(destination_kind, destination_bytes)
    };
    (
        DiffImage { path: source, image: source_image },
        DiffImage { path: destination, image: destination_image },
    )
}

} // verus!

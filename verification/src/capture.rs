//! Capture of frames as pixels and as picture files.

use crate::paths;
use crate::text;
use vstd::prelude::*;
use vstd::string::*;

verus! {

/// Bytes of one pixel.
pub const RGBA_BYTES_PER_PIXEL: u32 = 4;

/// Rows of a texture that is copied into a buffer begin at multiples of this.
pub const ROW_ALIGNMENT: u32 = 256;

/// The argument that is followed by a path.
pub open spec fn capture_flag(arg: Seq<char>) -> bool {
    arg == "--capture"@ || arg == "-c"@
}

/// The argument that holds a path.
pub open spec fn capture_assignment(arg: Seq<char>) -> bool {
    arg.len() >= "--capture="@.len() && arg.take("--capture="@.len() as int) == "--capture="@
}

/// The path that the arguments from `i` on name: that of the first flag. With
/// the flag as the last argument there is none.
pub open spec fn path_in_args(args: Seq<String>, i: int) -> Option<Option<Seq<char>>>
    decreases args.len() - i,
{
    if !(0 <= i < args.len()) {
        None
    } else if capture_assignment(args[i]@) {
        Some(Some(args[i]@.skip("--capture="@.len() as int)))
    } else if capture_flag(args[i]@) {
        if i + 1 < args.len() {
            Some(Some(args[i + 1]@))
        } else {
            Some(None)
        }
    } else {
        path_in_args(args, i + 1)
    }
}

/// The path to capture to: the one that the arguments of a program name, the
/// first of which is the program itself, or else `fallback`.
pub fn capture_path_from_cli(args: &Vec<String>, fallback: Option<String>) -> (res: Option<String>)
    ensures
        crate::input::text_view(res) == match path_in_args(args@, 1) {
            Some(path) => path,
            None => crate::input::text_view(fallback),
        },
{
    let prefix = "--capture=";
    let prefix_len: usize = prefix.unicode_len();
    let mut i: usize = 1;
    while i < args.len()
        invariant
            1 <= i,
            prefix@ == "--capture="@,
            prefix_len == prefix@.len(),
            path_in_args(args@, i as int) == path_in_args(args@, 1),
        decreases args.len() - i,
    {
        let arg = args[i].as_str();
        let len: usize = arg.unicode_len();
        if len >= prefix_len {
            let head = arg.substring_char(0, prefix_len);
            assert(head@ =~= arg@.take(prefix_len as int));
            if text::same(head, prefix) {
                let rest = arg.substring_char(prefix_len, len).to_owned();
                assert(rest@ =~= arg@.skip(prefix_len as int));
                return Some(rest);
            }
        }
        if text::same(arg, "--capture") || text::same(arg, "-c") {
            if i + 1 < args.len() {
                return Some(args[i + 1].clone());
            }
            return None;
        }
        i += 1;
    }
    fallback
}

/// Why a frame cannot be captured.
#[derive(Debug)]
pub enum CaptureError {
    ZeroDimensions,
    /// The texture has the format of this name.
    UnsupportedFormat(String),
    RowTooLarge,
    ImageTooLarge,
    /// The number of bytes expected and the number got.
    WrongLength { expected: u32, got: usize },
    BuildFailed,
}

impl CaptureError {
    /// The message of a capture of a texture.
    pub open spec fn texture_text(self) -> Seq<char> {
        match self {
            CaptureError::ZeroDimensions => "capture_texture_to_png: texture has zero dimensions"@,
            CaptureError::UnsupportedFormat(format) =>
            "capture_texture_to_png: unsupported format "@ + format@,
            CaptureError::RowTooLarge => "capture_texture_to_png: row too large"@,
            CaptureError::ImageTooLarge => "capture_texture_to_png: image too large"@,
            _ => "capture_texture_to_png: failed to build image"@,
        }
    }

    /// The message of a capture of a texture.
    pub fn texture_message(&self) -> (res: String)
        ensures
            res@ == self.texture_text(),
    {
        match self {
            CaptureError::ZeroDimensions =>
            "capture_texture_to_png: texture has zero dimensions".to_owned(),
            CaptureError::UnsupportedFormat(format) => {
                let mut res = "capture_texture_to_png: unsupported format ".to_owned();
                res.append(format.as_str());
                res
            },
            CaptureError::RowTooLarge => "capture_texture_to_png: row too large".to_owned(),
            CaptureError::ImageTooLarge => "capture_texture_to_png: image too large".to_owned(),
            _ => "capture_texture_to_png: failed to build image".to_owned(),
        }
    }

    /// The message of a capture of pixels.
    pub open spec fn buffer_text(self) -> Seq<char> {
        match self {
            CaptureError::ZeroDimensions => "capture_buffer_to_png: frame has zero dimensions"@,
            CaptureError::WrongLength { expected, got } => "capture_buffer_to_png: expected "@
                + text::decimal(expected as nat) + " bytes, got "@ + text::decimal(got as nat),
            CaptureError::BuildFailed => "capture_buffer_to_png: failed to build image"@,
            _ => "capture_buffer_to_png: image too large"@,
        }
    }

    /// The message of a capture of pixels.
    pub fn buffer_message(&self) -> (res: String)
        ensures
            res@ == self.buffer_text(),
    {
        match self {
            CaptureError::ZeroDimensions =>
            "capture_buffer_to_png: frame has zero dimensions".to_owned(),
            CaptureError::WrongLength { expected, got } => {
                let mut res = "capture_buffer_to_png: expected ".to_owned();
                res.append(text::to_decimal(*expected as u64).as_str());
                res.append(" bytes, got ");
                res.append(text::to_decimal(*got as u64).as_str());
                res
            },
            CaptureError::BuildFailed => "capture_buffer_to_png: failed to build image".to_owned(),
            _ => "capture_buffer_to_png: image too large".to_owned(),
        }
    }
}

/// How the pixels of a texture lie in the buffer that they are copied to.
#[derive(Debug, Clone, Copy, PartialEq, Eq, Structural)]
pub struct CaptureLayout {
    pub width: u32,
    pub height: u32,
    /// Bytes of the pixels of a row.
    pub row_bytes: u32,
    /// Bytes from one row to the next.
    pub stride: u32,
}

impl CaptureLayout {
    /// Rows hold their pixels and begin at the next multiple of the alignment.
    pub open spec fn wf(self) -> bool {
        &&& self.row_bytes == self.width * RGBA_BYTES_PER_PIXEL
        &&& self.stride % ROW_ALIGNMENT == 0
        &&& self.row_bytes <= self.stride < self.row_bytes + ROW_ALIGNMENT
    }

    /// Bytes of the whole buffer.
    pub open spec fn buffer_len(self) -> nat {
        self.stride as nat * self.height as nat
    }

    /// Bytes of all pixels.
    pub open spec fn pixels_len(self) -> nat {
        self.width as nat * self.height as nat * RGBA_BYTES_PER_PIXEL as nat
    }
}

/// The next multiple of the row alignment fits.
pub open spec fn stride_fits(width: u32) -> bool {
    width * RGBA_BYTES_PER_PIXEL <= 0xFFFF_FF00
}

fn layout_of(width: u32, height: u32) -> (res: CaptureLayout)
    requires
        stride_fits(width),
    ensures
        res.wf(),
        res.width == width,
        res.height == height,
{
    let row_bytes: u32 = width * RGBA_BYTES_PER_PIXEL;
    let over: u32 = row_bytes % ROW_ALIGNMENT;
    let stride: u32 = if over == 0 {
        row_bytes
    } else {
        row_bytes + (ROW_ALIGNMENT - over)
    };
    CaptureLayout { width, height, row_bytes, stride }
}

/// The layout of the buffer for a capture of a texture. `format` is the name
/// of the texture's format, and `rgba8` tells whether its pixels are four
/// bytes of red, green, blue and alpha.
pub fn capture_texture_layout(width: u32, height: u32, rgba8: bool, format: &str) -> (res: Result<
    CaptureLayout,
    CaptureError,
>)
    requires
        width * RGBA_BYTES_PER_PIXEL <= u32::MAX ==> stride_fits(width),
    ensures
        match res {
            Ok(layout) => {
                &&& width > 0 && height > 0 && rgba8 && width * RGBA_BYTES_PER_PIXEL <= u32::MAX
                &&& layout.wf() && layout.width == width && layout.height == height
            },
            Err(CaptureError::ZeroDimensions) => width == 0 || height == 0,
            Err(CaptureError::UnsupportedFormat(name)) => width > 0 && height > 0 && !rgba8
                && name@ == format@,
            Err(CaptureError::RowTooLarge) => width > 0 && height > 0 && rgba8 && width
                * RGBA_BYTES_PER_PIXEL > u32::MAX,
            Err(_) => false,
        },
{
    if width == 0 || height == 0 {
        return Err(CaptureError::ZeroDimensions);
    }
    if !rgba8 {
        return Err(CaptureError::UnsupportedFormat(format.to_owned()));
    }
    match width.checked_mul(RGBA_BYTES_PER_PIXEL) {
        Some(_) => Ok(layout_of(width, height)),
        None => Err(CaptureError::RowTooLarge),
    }
}

/// The layout of the buffer that the pixels of a frame are read back to.
pub fn read_pixels_layout(width: u32, height: u32) -> (res: CaptureLayout)
    requires
        stride_fits(width),
    ensures
        res.wf(),
        res.width == width,
        res.height == height,
{
    layout_of(width, height)
}

/// The size of the buffer in bytes.
pub fn buffer_size(layout: &CaptureLayout) -> (res: u64)
    ensures
        res == layout.buffer_len(),
{
    assert(layout.stride as u64 * layout.height as u64 <= u64::MAX) by (nonlinear_arith)
        requires
            layout.stride <= 0xFFFF_FFFFu32,
            layout.height <= 0xFFFF_FFFFu32,
    ;
    layout.stride as u64 * layout.height as u64
}

/// The byte of a row's pixels, without what pads the row, at each place of
/// tightly packed pixels.
pub open spec fn unpadded(data: Seq<u8>, row_bytes: int, stride: int, rows: int) -> Seq<u8>
    decreases rows,
{
    if rows <= 0 {
        Seq::empty()
    } else {
        unpadded(data, row_bytes, stride, rows - 1) + data.subrange(
            (rows - 1) * stride,
            (rows - 1) * stride + row_bytes,
        )
    }
}

/// The pixels of a buffer, tightly packed.
pub fn unpack_rows(data: &[u8], layout: &CaptureLayout) -> (res: Vec<u8>)
    requires
        layout.wf(),
        data@.len() >= layout.buffer_len(),
    ensures
        res@ == unpadded(
            data@,
            layout.row_bytes as int,
            layout.stride as int,
            layout.height as int,
        ),
        res@.len() == layout.pixels_len(),
{
    let stride: usize = layout.stride as usize;
    let row_bytes: usize = layout.row_bytes as usize;
    let height: usize = layout.height as usize;
    let len: usize = data.len();
    let mut res: Vec<u8> = Vec::new();
    let mut row: usize = 0;
    let mut start: usize = 0;
    while row < height
        invariant
            row <= height,
            height == layout.height,
            stride == layout.stride,
            row_bytes == layout.row_bytes,
            row_bytes <= stride,
            len == data@.len(),
            start == row * stride,
            data@.len() >= layout.buffer_len(),
            res@ == unpadded(data@, row_bytes as int, stride as int, row as int),
            res@.len() == row * row_bytes,
        decreases height - row,
    {
        proof {
            assert(row * stride + stride <= height * stride) by (nonlinear_arith)
                requires
                    row < height,
            ;
            assert(layout.buffer_len() == height * stride) by (nonlinear_arith)
                requires
                    layout.buffer_len() == layout.stride as nat * layout.height as nat,
                    height == layout.height,
                    stride == layout.stride,
            ;
            assert((row + 1) * stride == row * stride + stride) by (nonlinear_arith);
            assert((row + 1) * row_bytes == row * row_bytes + row_bytes) by (nonlinear_arith);
        }
        let bytes = vstd::slice::slice_subrange(data, start, start + row_bytes);
        res.extend_from_slice(bytes);
        row += 1;
        start += stride;
    }
    assert(res@.len() == layout.pixels_len()) by (nonlinear_arith)
        requires
            res@.len() == height * row_bytes,
            height == layout.height,
            row_bytes == layout.row_bytes,
            layout.row_bytes == layout.width * RGBA_BYTES_PER_PIXEL,
            layout.pixels_len() == layout.width as nat * layout.height as nat
                * RGBA_BYTES_PER_PIXEL as nat,
    ;
    res
}

/// `image::ImageBuffer::from_raw`, for pixels of four bytes: the bytes make an
/// image of the given size where they are enough for it, and are then kept as
/// they are. The bytes of a row are to fit a machine word: the call multiplies
/// them out before it looks at the height.
#[verifier::external_body]
fn build_image(width: u32, height: u32, rgba: Vec<u8>) -> (res: Option<Vec<u8>>)
    requires
        height > 0 || width * RGBA_BYTES_PER_PIXEL <= u32::MAX,
    ensures
        match res {
            Some(raw) => raw@ == rgba@ && width * height * RGBA_BYTES_PER_PIXEL <= rgba@.len(),
            None => width * height * RGBA_BYTES_PER_PIXEL > rgba@.len(),
        },
{
    image::ImageBuffer::<image::Rgba<u8>, Vec<u8>>::from_raw(width, height, rgba)
        .map(|image| image.into_raw())
}

/// The pixels of an image for a captured texture, from the buffer that it was
/// copied to.
pub fn capture_texture_pixels(data: &[u8], layout: &CaptureLayout) -> (res: Result<
    Vec<u8>,
    CaptureError,
>)
    requires
        layout.wf(),
        data@.len() >= layout.buffer_len(),
    ensures
        res matches Ok(rgba) && rgba@ == unpadded(
            data@,
            layout.row_bytes as int,
            layout.stride as int,
            layout.height as int,
        ),
{
    let rgba = unpack_rows(data, layout);
    match build_image(layout.width, layout.height, rgba) {
        Some(raw) => Ok(raw),
        None => Err(CaptureError::BuildFailed),
    }
}

/// The pixels of an image for a frame that is given as bytes.
pub fn capture_buffer_pixels(width: u32, height: u32, image_rgba8: &[u8]) -> (res: Result<
    Vec<u8>,
    CaptureError,
>)
    ensures
        ({
            let expected = width * height * RGBA_BYTES_PER_PIXEL;
            match res {
                Ok(rgba) => width > 0 && height > 0 && expected <= u32::MAX && image_rgba8@.len()
                    == expected && rgba@ == image_rgba8@,
                Err(CaptureError::ZeroDimensions) => width == 0 || height == 0,
                Err(CaptureError::ImageTooLarge) => width > 0 && height > 0 && expected
                    > u32::MAX,
                Err(CaptureError::WrongLength { expected: e, got }) => width > 0 && height > 0
                    && expected <= u32::MAX && e == expected && got == image_rgba8@.len() && got
                    != e,
                Err(_) => false,
            }
        }),
{
    if width == 0 || height == 0 {
        return Err(CaptureError::ZeroDimensions);
    }
    let expected: u32 = match width.checked_mul(height) {
        Some(pixels) => match pixels.checked_mul(RGBA_BYTES_PER_PIXEL) {
            Some(bytes) => bytes,
            None => {
                return Err(CaptureError::ImageTooLarge);
            },
        },
        None => {
            return Err(CaptureError::ImageTooLarge);
        },
    };
    let got: usize = image_rgba8.len();
    if got != expected as usize {
        return Err(CaptureError::WrongLength { expected, got });
    }
    match build_image(width, height, vstd::slice::slice_to_vec(image_rgba8)) {
        Some(raw) => Ok(raw),
        None => Err(CaptureError::BuildFailed),
    }
}

/// A file name from its parts. Without an extension, or with an empty one, it
/// gets that of a picture.
pub open spec fn capture_name_of(
    stem: Seq<char>,
    extension: Option<Seq<char>>,
    suffix: Option<Seq<char>>,
) -> Seq<char> {
    let ext = match extension {
        Some(e) => if e.len() > 0 {
            e
        } else {
            "png"@
        },
        None => "png"@,
    };
    match suffix {
        Some(s) => if s.len() > 0 {
            stem + "-"@ + s + "."@ + ext
        } else {
            stem + "."@ + ext
        },
        None => stem + "."@ + ext,
    }
}

/// The name of a capture beside a file of the given name.
pub open spec fn capture_named(name: Seq<char>, suffix: Option<Seq<char>>) -> Seq<char> {
    capture_name_of(paths::name_stem(name), paths::name_extension(name), suffix)
}

/// The file name of a capture from its parts.
pub fn build_capture_name(stem: &str, extension: Option<&str>, suffix: Option<&str>) -> (res:
    String)
    ensures
        res@ == capture_name_of(
            stem@,
            crate::input::str_view(extension),
            crate::input::str_view(suffix),
        ),
{
    let ext = match extension {
        Some(e) => if e.is_empty() {
            "png"
        } else {
            e
        },
        None => "png",
    };
    let mut res = stem.to_owned();
    if let Some(s) = suffix {
        if !s.is_empty() {
            res.append("-");
            res.append(s);
        }
    }
    res.append(".");
    res.append(ext);
    res
}

/// The path of a capture beside `base_path`: its name has `suffix` behind the
/// stem, where there is one, and the extension of a picture where
/// `base_path` has none.
pub fn build_capture_path(base_path: &str, suffix: Option<&str>) -> (res: String)
    ensures
        res@ == paths::path_joined(
            match paths::path_parent(base_path@) {
                Some(parent) => parent,
                None => "."@,
            },
            match paths::path_file_name(base_path@) {
                Some(name) => capture_named(name, crate::input::str_view(suffix)),
                None => capture_name_of("capture"@, None, crate::input::str_view(suffix)),
            },
        ),
{
    let file_name = paths::file_name(base_path);
    let (stem, extension) = match &file_name {
        Some(name) => paths::split_name(name.as_str()),
        None => ("capture".to_owned(), None),
    };
    let ext = match &extension {
        Some(e) => Some(e.as_str()),
        None => None,
    };
    let name = build_capture_name(stem.as_str(), ext, suffix);
    match paths::parent(base_path) {
        Some(parent) => paths::join(parent.as_str(), name.as_str()),
        None => paths::join(".", name.as_str()),
    }
}

} // verus!

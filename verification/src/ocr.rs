//! Text in pictures.

use crate::platform::{
    bmp_bits, bmp_height, bmp_width, has_bmp_head, pixel_bytes, read_bmp_head,
};
use crate::text::{blank, chars_of, copy_str, decimal, decimal_text, is_blank, trim, trimmed};
use vstd::prelude::*;

verus! {

/// A word with its place on the screen.
pub struct OcrBox {
    pub text: String,
    pub x: i32,
    pub y: i32,
    pub width: i32,
    pub height: i32,
}

/// The text in a picture.
pub struct OcrSummary {
    pub text: String,
    /// The characters of the text, without the white space around it.
    pub chars: usize,
    pub boxes: Vec<OcrBox>,
}

/// What is known of the engine.
#[derive(Debug, Clone, Copy, PartialEq, Eq, Structural)]
pub struct OcrEngineStatus {
    pub engine_created: bool,
    pub max_image_dimension: u32,
}

/// There is no engine here.
pub fn ocr_engine_status() -> (r: OcrEngineStatus)
    ensures
        r == (OcrEngineStatus { engine_created: false, max_image_dimension: 0 }),
{
    OcrEngineStatus { engine_created: false, max_image_dimension: 0 }
}

/// The text in a picture. There is no engine here.
pub fn ocr_bmp(bmp: &Vec<u8>) -> (r: Option<OcrSummary>)
    ensures
        r is None,
{
    None
}

/// The text in a picture, or why there is none. There is no engine here.
pub fn ocr_bmp_detailed(bmp: &Vec<u8>) -> (r: Result<OcrSummary, String>)
    ensures
        r matches Err(e) && e@ == "本地 OCR 暂仅支持 Windows"@,
{
    Err(copy_str("本地 OCR 暂仅支持 Windows"))
}

/// The points of a picture as an engine wants them.
pub struct Frame {
    pub width: i32,
    pub height: i32,
    pub pixels: Vec<u8>,
}

/// The bytes of the points that the head of a picture announces.
pub open spec fn announced_bytes(b: Seq<u8>) -> int {
    bmp_width(b) * bmp_height(b) * 4
}

/// What an engine cannot work with in a picture.
pub open spec fn frame_fault(b: Seq<u8>) -> Option<Seq<char>> {
    if !has_bmp_head(b) {
        Some("BMP 头无效"@)
    } else if bmp_bits(b) != 32 {
        Some("不支持的 BMP 位深："@ + decimal(bmp_bits(b) as nat))
    } else if bmp_width(b) <= 0 || bmp_height(b) <= 0 {
        Some("BMP 尺寸非法"@)
    } else if b.len() < 54 + announced_bytes(b) {
        Some("BMP 像素数据不完整"@)
    } else {
        None
    }
}

/// Takes the points out of a picture.
pub fn read_frame(bmp: &Vec<u8>) -> (r: Result<Frame, String>)
    ensures
        match r {
            Ok(f) => {
                &&& frame_fault(bmp@) is None
                &&& f.width == bmp_width(bmp@)
                &&& f.height == bmp_height(bmp@)
                &&& f.pixels@ == bmp@.subrange(54, 54 + announced_bytes(bmp@))
            },
            Err(e) => frame_fault(bmp@) == Some(e@),
        },
{
    let head = match read_bmp_head(bmp) {
        Some(h) => h,
        None => {
            return Err(copy_str("BMP 头无效"));
        },
    };
    if head.bits != 32 {
        let mut e = copy_str("不支持的 BMP 位深：");
        e.append(decimal_text(head.bits as u64).as_str());
        return Err(e);
    }
    if head.width <= 0 || head.height <= 0 {
        return Err(copy_str("BMP 尺寸非法"));
    }
    let expected: u64 = pixel_bytes(head.width, head.height);
    if (bmp.len() as u64) < 54 || (bmp.len() as u64) - 54 < expected {
        return Err(copy_str("BMP 像素数据不完整"));
    }
    let end: usize = 54 + expected as usize;
    Ok(Frame { width: head.width, height: head.height, pixels: copy_bytes(bmp, 54, end) })
}

/// The bytes `v[from..to]`.
pub fn copy_bytes(v: &Vec<u8>, from: usize, to: usize) -> (r: Vec<u8>)
    requires
        from <= to <= v@.len(),
    ensures
        r@ == v@.subrange(from as int, to as int),
{
    let mut r: Vec<u8> = Vec::new();
    let mut i: usize = from;
    while i < to
        invariant
            from <= i <= to <= v@.len(),
            r@ == v@.subrange(from as int, i as int),
        decreases to - i,
    {
        r.push(v[i]);
        i += 1;
        assert(v@.subrange(from as int, i as int) =~= v@.subrange(from as int, i - 1).push(v@[i - 1]));
    }
    r
}

/// What an engine has found: a text that is blank is none.
pub fn ocr_result(text: String, boxes: Vec<OcrBox>) -> (r: Result<OcrSummary, String>)
    ensures
        match r {
            Ok(s) => !is_blank(text@) && s.text == text && s.chars == trimmed(text@).len() && s.boxes == boxes,
            Err(e) => is_blank(text@) && e@ == "识别结果为空"@,
        },
{
    if blank(text.as_str()) {
        return Err(copy_str("识别结果为空"));
    }
    let t = trim(text.as_str());
    let chars: usize = chars_of(t.as_str()).len();
    Ok(OcrSummary { text, chars, boxes })
}

// ---------------------------------------------------------------------------
// Laws
// ---------------------------------------------------------------------------

/// A picture is read exactly if it has its head, four bytes for each point, a size, and
/// as many bytes as the size asks for.
pub proof fn readable_pictures_are_complete(b: Seq<u8>)
    ensures
        frame_fault(b) is None <==> has_bmp_head(b) && bmp_bits(b) == 32 && bmp_width(b) > 0 && bmp_height(b) > 0 && b.len()
            >= 54 + 4 * (bmp_width(b) * bmp_height(b)),
{
    let n = bmp_width(b) * bmp_height(b);
    assert(n * 4 == 4 * n);
}

} // verus!

//! What the desktop shows: where there is no desktop to look at, nothing; and
//! the pictures of it in memory.

use crate::text::{chars_of, lowercase, string_of, unicode_lower};
use vstd::prelude::*;

verus! {

// ---------------------------------------------------------------------------
// The desktop
// ---------------------------------------------------------------------------

/// The application in front, by its name and the title of its window. There is
/// no desktop to ask here.
pub fn poll_foreground_app() -> (r: Option<(String, String)>)
    ensures
        r is None,
{
    None
}

/// The title of the window in front. There is no desktop to ask here.
pub fn foreground_title() -> (r: Option<String>)
    ensures
        r is None,
{
    None
}

/// The number that changes with the clipboard. There is no clipboard to ask here.
pub fn clipboard_sequence() -> (r: u32)
    ensures
        r == 0,
{
    0
}

/// A picture of the screen. There is no screen here.
pub fn capture_screen() -> (r: Option<Vec<u8>>)
    ensures
        r is None,
{
    None
}

/// A picture of the corner of the screen. There is no screen here.
pub fn capture_screen_region(width: i32, height: i32) -> (r: Option<Vec<u8>>)
    ensures
        r is None,
{
    None
}

/// What follows the last backslash.
pub open spec fn after_last_backslash(s: Seq<char>) -> Seq<char>
    decreases s.len(),
{
    if s.len() == 0 || s.last() == '\\' {
        Seq::<char>::empty()
    } else {
        after_last_backslash(s.drop_last()).push(s.last())
    }
}

/// The text without the endings `.exe`.
pub open spec fn without_exe(s: Seq<char>) -> Seq<char>
    decreases s.len(),
{
    if s.len() >= 4 && s.skip(s.len() - 4) == seq!['.', 'e', 'x', 'e'] {
        without_exe(s.take(s.len() - 4))
    } else {
        s
    }
}

/// The name of an application by the path of its program.
pub open spec fn app_name(path: Seq<char>) -> Seq<char> {
    unicode_lower(without_exe(after_last_backslash(path)))
}

/// Where the last name on a path starts.
fn last_name_start(v: &Vec<char>) -> (a: usize)
    ensures
        a <= v@.len(),
        after_last_backslash(v@) == v@.skip(a as int),
{
    let mut a: usize = v.len();
    proof {
        assert(v@.take(a as int) =~= v@);
        assert(after_last_backslash(v@) =~= after_last_backslash(v@.take(a as int)) + v@.skip(a as int));
    }
    while a > 0 && v[a - 1] != '\\'
        invariant
            a <= v@.len(),
            after_last_backslash(v@) == after_last_backslash(v@.take(a as int)) + v@.skip(a as int),
        decreases a,
    {
        proof {
            let t = v@.take(a as int);
            assert(t.drop_last() =~= v@.take(a - 1));
            let rest = after_last_backslash(v@.take(a - 1));
            assert(after_last_backslash(t) == rest.push(v@[a - 1]));
            assert(rest.push(v@[a - 1]) + v@.skip(a as int) =~= rest + v@.skip(a - 1));
        }
        a -= 1;
    }
    assert(after_last_backslash(v@.take(a as int)) =~= Seq::<char>::empty()) by {
        if a > 0 {
            assert(v@.take(a as int).last() == '\\');
        }
    }
    assert(Seq::<char>::empty() + v@.skip(a as int) =~= v@.skip(a as int));
    a
}

/// Where the text from `a` on ends without its endings.
fn exe_end(v: &Vec<char>, a: usize) -> (b: usize)
    requires
        a <= v@.len(),
    ensures
        a <= b <= v@.len(),
        without_exe(v@.skip(a as int)) == v@.subrange(a as int, b as int),
{
    let mut b: usize = v.len();
    assert(v@.subrange(a as int, b as int) =~= v@.skip(a as int));
    while b - a >= 4 && v[b - 4] == '.' && v[b - 3] == 'e' && v[b - 2] == 'x' && v[b - 1] == 'e'
        invariant
            a <= b <= v@.len(),
            without_exe(v@.skip(a as int)) == without_exe(v@.subrange(a as int, b as int)),
        decreases b,
    {
        proof {
            let t = v@.subrange(a as int, b as int);
            assert(t.skip(t.len() - 4) =~= seq!['.', 'e', 'x', 'e']);
            assert(t.take(t.len() - 4) =~= v@.subrange(a as int, b - 4));
        }
        b -= 4;
    }
    proof {
        let t = v@.subrange(a as int, b as int);
        if t.len() >= 4 && t.skip(t.len() - 4) == seq!['.', 'e', 'x', 'e'] {
            let e = t.skip(t.len() - 4);
            assert(e[0] == v@[b - 4] && e[1] == v@[b - 3] && e[2] == v@[b - 2] && e[3] == v@[b - 1]);
        }
    }
    b
}

/// The name of an application by the path of its program: the last name on the
/// path, without its ending, in lower case.
pub fn process_name_of(path: &str) -> (r: String)
    ensures
        r@ == app_name(path@),
{
    let v = chars_of(path);
    let a: usize = last_name_start(&v);
    let b: usize = exe_end(&v, a);
    let name = string_of(&v, a, b);
    lowercase(name.as_str())
}

// ---------------------------------------------------------------------------
// Pictures
// ---------------------------------------------------------------------------

/// The bytes of a number from the lowest up.
#[verifier::opaque]
pub open spec fn le4(n: int) -> Seq<u8> {
    seq![
        (n % 256) as u8,
        (n / 256 % 256) as u8,
        (n / 65536 % 256) as u8,
        (n / 16777216 % 256) as u8,
    ]
}

/// The number within the range of 32 bits that `n` is congruent to.
pub open spec fn wrapped32(n: int) -> int {
    n % 4294967296
}

/// The number that four bytes stand for, the lowest first.
pub open spec fn read4(b: Seq<u8>, i: int) -> int {
    b[i] + 256 * b[i + 1] + 65536 * b[i + 2] + 16777216 * b[i + 3]
}

/// The signed reading of a number of 32 bits.
pub open spec fn signed32(n: int) -> int {
    if n >= 2147483648 {
        n - 4294967296
    } else {
        n
    }
}

/// The head of a picture: its size in the file and its form, 32 bits a point.
pub open spec fn bmp_head(width: int, height: int, pixel_bytes: int) -> Seq<u8> {
    seq![66u8, 77u8] + le4(wrapped32(54 + pixel_bytes)) + le4(0) + le4(54) + le4(40) + le4(wrapped32(width)) + le4(
        wrapped32(height),
    ) + seq![1u8, 0u8, 32u8, 0u8] + le4(0) + le4(wrapped32(pixel_bytes)) + le4(0) + le4(0) + le4(0) + le4(0)
}

fn push4(out: &mut Vec<u8>, n: u32)
    ensures
        final(out)@ == old(out)@ + le4(n as int),
{
    proof {
        reveal(le4);
    }
    out.push((n % 256) as u8);
    out.push((n / 256 % 256) as u8);
    out.push((n / 65536 % 256) as u8);
    out.push((n / 16777216 % 256) as u8);
    assert(out@ =~= old(out)@ + le4(n as int));
}

fn low_bits(n: i64) -> (r: u32)
    ensures
        r == wrapped32(n as int),
{
    if n >= 0 {
        (n % 4294967296) as u32
    } else {
        let m: i128 = n as i128;
        let back: i128 = (-m) % 4294967296;
        if back == 0 {
            proof {
                assert(wrapped32(n as int) == 0) by (nonlinear_arith)
                    requires
                        (-n) % 4294967296 == 0,
                        wrapped32(n as int) == n as int % 4294967296,
                ;
            }
            0
        } else {
            proof {
                assert(wrapped32(n as int) == 4294967296 - back) by (nonlinear_arith)
                    requires
                        back == (-n) % 4294967296,
                        back != 0,
                        wrapped32(n as int) == n as int % 4294967296,
                ;
            }
            (4294967296 - back) as u32
        }
    }
}

/// A picture in memory: the head, then the points.
pub fn encode_bmp(width: i32, height: i32, bgra: &Vec<u8>) -> (r: Vec<u8>)
    requires
        bgra@.len() <= 0x7fff_ffff_ffff_0000,
    ensures
        r@ == bmp_head(width as int, height as int, bgra@.len() as int) + bgra@,
{
    let n: u64 = bgra.len() as u64;
    let mut out: Vec<u8> = Vec::new();
    out.push(66);
    out.push(77);
    assert(out@ =~= seq![66u8, 77u8]);
    push4(&mut out, low_bits((n + 54) as i64));
    push4(&mut out, 0);
    push4(&mut out, 54);
    push4(&mut out, 40);
    push4(&mut out, low_bits(width as i64));
    push4(&mut out, low_bits(height as i64));
    let ghost before = out@;
    out.push(1);
    out.push(0);
    out.push(32);
    out.push(0);
    assert(out@ =~= before + seq![1u8, 0u8, 32u8, 0u8]);
    push4(&mut out, 0);
    push4(&mut out, low_bits(n as i64));
    push4(&mut out, 0);
    push4(&mut out, 0);
    push4(&mut out, 0);
    push4(&mut out, 0);
    let ghost head = out@;
    assert(head == bmp_head(width as int, height as int, bgra@.len() as int));
    for i in 0..bgra.len()
        invariant
            out@ == head + bgra@.take(i as int),
    {
        out.push(bgra[i]);
        assert(out@ =~= head + bgra@.take(i + 1));
    }
    assert(bgra@.take(bgra@.len() as int) =~= bgra@);
    out
}

/// The picture has a head.
pub open spec fn has_bmp_head(b: Seq<u8>) -> bool {
    b.len() >= 54 && b[0] == 66 && b[1] == 77
}

pub open spec fn bmp_width(b: Seq<u8>) -> int {
    signed32(read4(b, 18))
}

/// The height, without the sign that tells the order of the lines. The one
/// number without a counterpart stays as it is.
pub open spec fn bmp_height(b: Seq<u8>) -> int {
    let h = signed32(read4(b, 22));
    if h < 0 && h != -2147483648 {
        -h
    } else {
        h
    }
}

/// The bits a point.
pub open spec fn bmp_bits(b: Seq<u8>) -> int {
    b[28] + 256 * b[29]
}

/// The head of a picture.
pub struct BmpHead {
    pub width: i32,
    pub height: i32,
    pub bits: u16,
}

/// Reads the head of a picture, where it has one.
pub fn read_bmp_head(bmp: &Vec<u8>) -> (r: Option<BmpHead>)
    ensures
        match r {
            Some(h) => has_bmp_head(bmp@) && h.width == bmp_width(bmp@) && h.height == bmp_height(bmp@) && h.bits
                == bmp_bits(bmp@),
            None => !has_bmp_head(bmp@),
        },
{
    if bmp.len() < 54 || bmp[0] != 66 || bmp[1] != 77 {
        return None;
    }
    let width: i32 = read_i32(bmp, 18);
    let raw: i32 = read_i32(bmp, 22);
    let height: i32 = if raw < 0 && raw != i32::MIN {
        -raw
    } else {
        raw
    };
    let bits: u16 = bmp[28] as u16 + 256 * (bmp[29] as u16);
    Some(BmpHead { width, height, bits })
}

fn read_i32(b: &Vec<u8>, i: usize) -> (r: i32)
    requires
        i <= 50,
        i + 4 <= b@.len(),
    ensures
        r == signed32(read4(b@, i as int)),
{
    let n: i64 = b[i] as i64 + 256 * (b[i + 1] as i64) + 65536 * (b[i + 2] as i64) + 16777216 * (b[i + 3] as i64);
    if n >= 2147483648 {
        (n - 4294967296) as i32
    } else {
        n as i32
    }
}

/// The bytes of the points of a picture of this size.
pub fn pixel_bytes(width: i32, height: i32) -> (r: u64)
    requires
        width > 0,
        height > 0,
    ensures
        r == width * height * 4,
{
    assert(width * height <= 2147483647 * 2147483647) by (nonlinear_arith)
        requires
            0 < width <= 2147483647,
            0 < height <= 2147483647,
    ;
    assert(width * height >= 0) by (nonlinear_arith)
        requires
            0 < width,
            0 < height,
    ;
    (width as u64) * (height as u64) * 4
}

proof fn le4_reads_back(n: int)
    requires
        0 <= n < 4294967296,
    ensures
        read4(le4(n), 0) == n,
        le4(n).len() == 4,
{
    reveal(le4);
    let a = n % 256;
    let q = n / 256;
    assert(n == 256 * q + a);
    let b = q % 256;
    let q2 = q / 256;
    assert(q == 256 * q2 + b);
    assert(n / 65536 == q2);
    let c = q2 % 256;
    let q3 = q2 / 256;
    assert(q2 == 256 * q3 + c);
    assert(n / 16777216 == q3);
    assert(q3 < 256);
}

proof fn le4_len(n: int)
    ensures
        le4(n).len() == 4,
{
    reveal(le4);
}

proof fn parts_of_a_picture(a: Seq<u8>, w: Seq<u8>, h: Seq<u8>, form: Seq<u8>, t: Seq<u8>, bgra: Seq<u8>)
    requires
        a.len() == 18,
        w.len() == 4,
        h.len() == 4,
        form.len() == 4,
        t.len() == 24,
    ensures
        ({
            let b = a + w + h + form + t + bgra;
            &&& b.len() == 54 + bgra.len()
            &&& b[0] == a[0] && b[1] == a[1]
            &&& read4(b, 18) == read4(w, 0)
            &&& read4(b, 22) == read4(h, 0)
            &&& b[28] == form[2] && b[29] == form[3]
            &&& b.skip(54) == bgra
        }),
{
    let b = a + w + h + form + t + bgra;
    assert(b.skip(54) =~= bgra);
}

/// What is read from a picture is what was put into it.
pub proof fn picture_reads_back(width: i32, height: i32, bgra: Seq<u8>)
    requires
        width > 0,
        height > 0,
    ensures
        ({
            let b = bmp_head(width as int, height as int, bgra.len() as int) + bgra;
            &&& has_bmp_head(b)
            &&& bmp_width(b) == width
            &&& bmp_height(b) == height
            &&& bmp_bits(b) == 32
            &&& b.len() == 54 + bgra.len()
            &&& b.skip(54) == bgra
        }),
{
    let n = bgra.len() as int;
    le4_reads_back(width as int);
    le4_reads_back(height as int);
    assert(wrapped32(width as int) == width);
    assert(wrapped32(height as int) == height);
    le4_len(wrapped32(54 + n));
    le4_len(wrapped32(n));
    le4_len(0);
    le4_len(54);
    le4_len(40);
    let a = seq![66u8, 77u8] + le4(wrapped32(54 + n)) + le4(0) + le4(54) + le4(40);
    let w = le4(width as int);
    let h = le4(height as int);
    let form = seq![1u8, 0u8, 32u8, 0u8];
    let t = le4(0) + le4(wrapped32(n)) + le4(0) + le4(0) + le4(0) + le4(0);
    parts_of_a_picture(a, w, h, form, t, bgra);
    assert(bmp_head(width as int, height as int, n) =~= a + w + h + form + t);
}

/// The name of an application is the name of its file, without the folders before it
/// and the ending of programs behind it, in lower case.
pub proof fn applications_are_named_after_their_file(folder: Seq<char>, name: Seq<char>)
    requires
        !name.contains('\\'),
        name.len() < 4 || name.skip(name.len() - 4) != seq!['.', 'e', 'x', 'e'],
    ensures
        app_name(folder + seq!['\\'] + name + seq!['.', 'e', 'x', 'e']) == unicode_lower(name),
        app_name(folder + seq!['\\'] + name) == unicode_lower(name),
        app_name(name) == unicode_lower(name),
{
    let exe = seq!['.', 'e', 'x', 'e'];
    let full = name + exe;
    assert(!full.contains('\\')) by {
        if full.contains('\\') {
            let i = choose|i: int| 0 <= i < full.len() && full[i] == '\\';
            if i < name.len() {
                assert(name[i] == '\\');
            }
        }
    }
    assert(folder + seq!['\\'] + name + exe =~= folder + seq!['\\'] + full);
    behind_backslash(folder, full);
    behind_backslash(folder, name);
    without_backslash(name);
    assert(full.skip(full.len() - 4) =~= exe);
    assert(full.take(full.len() - 4) =~= name);
    assert(without_exe(name) == name);
    assert(without_exe(full) == without_exe(name));
}

proof fn without_backslash(name: Seq<char>)
    requires
        !name.contains('\\'),
    ensures
        after_last_backslash(name) == name,
    decreases name.len(),
{
    if name.len() > 0 {
        assert(name[name.len() - 1] == name.last());
        assert(!name.drop_last().contains('\\')) by {
            if name.drop_last().contains('\\') {
                let i = choose|i: int| 0 <= i < name.drop_last().len() && name.drop_last()[i] == '\\';
                assert(name[i] == '\\');
            }
        }
        without_backslash(name.drop_last());
        assert(name.drop_last().push(name.last()) =~= name);
    } else {
        assert(name =~= Seq::<char>::empty());
    }
}

proof fn behind_backslash(folder: Seq<char>, name: Seq<char>)
    requires
        !name.contains('\\'),
    ensures
        after_last_backslash(folder + seq!['\\'] + name) == name,
    decreases name.len(),
{
    let t = folder + seq!['\\'] + name;
    if name.len() > 0 {
        assert(name[name.len() - 1] == name.last());
        assert(t.last() == name.last());
        assert(!name.drop_last().contains('\\')) by {
            if name.drop_last().contains('\\') {
                let i = choose|i: int| 0 <= i < name.drop_last().len() && name.drop_last()[i] == '\\';
                assert(name[i] == '\\');
            }
        }
        assert(t.drop_last() =~= folder + seq!['\\'] + name.drop_last());
        behind_backslash(folder, name.drop_last());
        assert(name.drop_last().push(name.last()) =~= name);
    } else {
        assert(t.last() == '\\');
        assert(name =~= Seq::<char>::empty());
    }
}

/// What is no picture of this kind is told from one by its first two bytes and its
/// length; a picture upside down is as high as one that is not.
pub proof fn pictures_begin_with_their_mark(b: Seq<u8>)
    ensures
        has_bmp_head(b) <==> b.len() >= 54 && b[0] == 'B' as u8 && b[1] == 'M' as u8,
        b.len() >= 54 && read4(b, 22) < 0x8000_0000 ==> bmp_height(b) == read4(b, 22),
        b.len() >= 54 && 0x8000_0000 < read4(b, 22) <= 0xffff_ffff ==> bmp_height(b) == 0x1_0000_0000 - read4(b, 22),
        b.len() >= 54 && read4(b, 18) < 0x8000_0000 ==> bmp_width(b) == read4(b, 18),
{
}

} // verus!

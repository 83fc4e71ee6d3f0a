//! The tray icon's requests to the window, its picture, and the UTF-16
//! text the Windows shell API takes.
use vstd::prelude::*;

use vstd::arithmetic::power2::{
    lemma2_to64, lemma_pow2_strictly_increases, lemma_pow2_unfold, pow2,
};

use crate::text::char_vec;

verus! {

broadcast use vstd::string::group_string_axioms;

/// Requests made from the tray icon that the window has not yet taken.
pub struct TrayHandle {
    pub show: bool,
    pub exit: bool,
}

impl TrayHandle {
    pub fn new() -> (r: Self)
        ensures
            !r.show,
            !r.exit,
    {
        TrayHandle { show: false, exit: false }
    }

    /// The user asked to see the window.
    pub fn request_show(&mut self)
        ensures
            final(self).show,
            final(self).exit == old(self).exit,
    {
        self.show = true;
    }

    /// The user asked to quit.
    pub fn request_exit(&mut self)
        ensures
            final(self).exit,
            final(self).show == old(self).show,
    {
        self.exit = true;
    }

    /// Takes a pending request to show the window: each request is seen
    /// once.
    pub fn show_requested(&mut self) -> (r: bool)
        ensures
            r == old(self).show,
            !final(self).show,
            final(self).exit == old(self).exit,
    {
        let r = self.show;
        self.show = false;
        r
    }

    /// Takes a pending request to quit: each request is seen once.
    pub fn exit_requested(&mut self) -> (r: bool)
        ensures
            r == old(self).exit,
            !final(self).exit,
            final(self).show == old(self).show,
    {
        let r = self.exit;
        self.exit = false;
        r
    }
}

/// The UTF-16 code units of one character.
pub open spec fn utf16_units(c: char) -> Seq<u16> {
    let v = c as u32;
    if v < 0x10000 {
        seq![v as u16]
    } else {
        let w = (v - 0x10000) as u32;
        seq![(0xd800 + w / 0x400) as u16, (0xdc00 + w % 0x400) as u16]
    }
}

/// `str::encode_utf16`.
pub open spec fn utf16_seq(s: Seq<char>) -> Seq<u16>
    decreases s.len(),
{
    if s.len() == 0 {
        Seq::empty()
    } else {
        utf16_seq(s.drop_last()) + utf16_units(s.last())
    }
}

fn encode_utf16(value: &str) -> (r: Vec<u16>)
    ensures
        r@ == utf16_seq(value@),
{
    let v = char_vec(value);
    let mut r: Vec<u16> = Vec::new();
    let mut i: usize = 0;
    while i < v.len()
        invariant
            i <= v@.len(),
            r@ == utf16_seq(v@.subrange(0, i as int)),
        decreases v@.len() - i,
    {
        let c = v[i];
        let code = c as u32;
        let ghost before = r@;
        if code < 0x10000 {
            r.push(code as u16);
        } else {
            let w = code - 0x10000;
            r.push((0xd800 + w / 0x400) as u16);
            r.push((0xdc00 + w % 0x400) as u16);
        }
        assert(r@ =~= before + utf16_units(c));
        assert(v@.subrange(0, i + 1).drop_last() =~= v@.subrange(0, i as int));
        i = i + 1;
    }
    assert(v@.subrange(0, v@.len() as int) =~= v@);
    r
}

/// The text as a NUL-terminated UTF-16 string.
pub fn wide_null(value: &str) -> (r: Vec<u16>)
    ensures
        r@ == utf16_seq(value@).push(0),
{
    let mut r = encode_utf16(value);
    r.push(0);
    r
}

/// Writes as many UTF-16 units of `value` as fit before the buffer's last
/// unit into the start of `target`; the rest of `target` is left as it was.
pub fn copy_wide_into(target: &mut [u16], value: &str)
    ensures
        final(target)@.len() == old(target)@.len(),
        ({
            let n = if old(target)@.len() == 0 {
                0
            } else {
                old(target)@.len() - 1
            };
            let k = if utf16_seq(value@).len() < n {
                utf16_seq(value@).len() as int
            } else {
                n as int
            };
            &&& forall|i: int| 0 <= i < k ==> final(target)@[i] == utf16_seq(value@)[i]
            &&& forall|i: int| k <= i < old(target)@.len() ==> final(target)@[i] == old(target)@[i]
        }),
{
    let wide = encode_utf16(value);
    let n: usize = if target.len() == 0 {
        0
    } else {
        target.len() - 1
    };
    let k: usize = if wide.len() < n {
        wide.len()
    } else {
        n
    };
    let mut i: usize = 0;
    while i < k
        invariant
            k <= n,
            n <= old(target)@.len(),
            k <= wide@.len(),
            i <= k,
            target@.len() == old(target)@.len(),
            forall|j: int| 0 <= j < i ==> target@[j] == wide@[j],
            forall|j: int| i <= j < old(target)@.len() ==> target@[j] == old(target)@[j],
        decreases k - i,
    {
        target[i] = wide[i];
        i = i + 1;
    }
}


// ---------------------------------------------------------------------------
// The icon's picture
// ---------------------------------------------------------------------------

pub open spec fn max3(a: int, b: int, c: int) -> int {
    let m = if a > b { a } else { b };
    if m > c { m } else { c }
}

/// Whether pixel `(x, y)` lies in the rectangle from `(x0, y0)` to
/// `(x1, y1)` with corners rounded to radius `r2 / 2`: its distance from
/// the rectangle shrunk by the radius is at most the radius, with half a
/// pixel squared to spare.  Coordinates are doubled so that half-pixel
/// centres stay whole.
pub open spec fn in_rounded_box(x: int, y: int, x0: int, y0: int, x1: int, y1: int, r2: int) -> bool {
    &&& x0 <= x <= x1
    &&& y0 <= y <= y1
    &&& {
        let dx = max3(2 * x0 + r2 - 2 * x, 0, 2 * x - (2 * x1 - r2));
        let dy = max3(2 * y0 + r2 - 2 * y, 0, 2 * y - (2 * y1 - r2));
        dx * dx + dy * dy <= r2 * r2 + 2
    }
}

/// The colour of pixel `(x, y)` of the 32 by 32 icon (y counted from the
/// top), if it is drawn: a capsule shading from red to pink, a grey stem
/// and a grey base.
pub open spec fn icon_pixel(x: int, y: int) -> Option<(u8, u8, u8)> {
    if in_rounded_box(x, y, 11, 3, 20, 19, 9) {
        Some((255u8, (32 - 2 * (y - 3)) as u8, (16 + (69 * (y - 3)) / 8) as u8))
    } else if 15 <= x <= 16 && 19 <= y <= 24 {
        Some((210u8, 214u8, 218u8))
    } else if in_rounded_box(x, y, 9, 25, 22, 27, 4) {
        Some((210u8, 214u8, 218u8))
    } else {
        None
    }
}

/// Byte `i` of the icon's colour bitmap: rows from the bottom up, four
/// bytes per pixel in blue, green, red, alpha order; zero where nothing is
/// drawn.
pub open spec fn icon_color_byte(i: int) -> u8 {
    let pixel = i / 4;
    let y = 31 - pixel / 32;
    let x = pixel % 32;
    match icon_pixel(x, y) {
        Some(c) => if i % 4 == 0 {
            c.2
        } else if i % 4 == 1 {
            c.1
        } else if i % 4 == 2 {
            c.0
        } else {
            255
        },
        None => 0,
    }
}

/// The first `n` bits, most significant first, of byte `c` of row `y` of
/// the icon's transparency mask: a bit is set where nothing is drawn.
pub open spec fn mask_prefix(y: int, c: int, n: nat) -> int
    decreases n,
{
    if n == 0 {
        0
    } else {
        2 * mask_prefix(y, c, (n - 1) as nat) + (if icon_pixel(8 * c + n - 1, y) is None {
            1int
        } else {
            0int
        })
    }
}

/// Byte `j` of the transparency mask: rows from the bottom up, four bytes
/// per row, the leftmost pixel in the most significant bit.
pub open spec fn icon_mask_byte(j: int) -> int {
    mask_prefix(31 - j / 4, j % 4, 8)
}

fn max3_i32(a: i32, b: i32, c: i32) -> (r: i32)
    ensures
        r == max3(a as int, b as int, c as int),
{
    let m = if a > b { a } else { b };
    if m > c { m } else { c }
}

fn in_rounded_box_exec(x: i32, y: i32, x0: i32, y0: i32, x1: i32, y1: i32, r2: i32) -> (r: bool)
    requires
        0 <= x < 32,
        0 <= y < 32,
        0 <= x0 <= x1 < 32,
        0 <= y0 <= y1 < 32,
        0 <= r2 <= 16,
    ensures
        r == in_rounded_box(x as int, y as int, x0 as int, y0 as int, x1 as int, y1 as int, r2 as int),
{
    if x < x0 || x > x1 || y < y0 || y > y1 {
        return false;
    }
    let dx = max3_i32(2 * x0 + r2 - 2 * x, 0, 2 * x - (2 * x1 - r2));
    let dy = max3_i32(2 * y0 + r2 - 2 * y, 0, 2 * y - (2 * y1 - r2));
    assert(0 <= dx <= 100 && 0 <= dy <= 100);
    assert(dx * dx <= 10000 && dy * dy <= 10000) by (nonlinear_arith)
        requires
            0 <= dx <= 100,
            0 <= dy <= 100,
    ;
    assert(r2 * r2 <= 256) by (nonlinear_arith)
        requires
            0 <= r2 <= 16,
    ;
    dx * dx + dy * dy <= r2 * r2 + 2
}

fn icon_pixel_exec(x: i32, y: i32) -> (r: Option<(u8, u8, u8)>)
    requires
        0 <= x < 32,
        0 <= y < 32,
    ensures
        r == icon_pixel(x as int, y as int),
{
    if in_rounded_box_exec(x, y, 11, 3, 20, 19, 9) {
        let k = y - 3;
        Some((255, (32 - 2 * k) as u8, (16 + (69 * k) / 8) as u8))
    } else if 15 <= x && x <= 16 && 19 <= y && y <= 24 {
        Some((210, 214, 218))
    } else if in_rounded_box_exec(x, y, 9, 25, 22, 27, 4) {
        Some((210, 214, 218))
    } else {
        None
    }
}

/// The two bitmaps of the tray icon, 32 by 32 pixels: the colour bitmap
/// (4096 bytes) and the transparency mask (128 bytes).
pub fn app_icon_bitmaps() -> (r: (Vec<u8>, Vec<u8>))
    ensures
        r.0@.len() == 4096,
        forall|i: int| 0 <= i < 4096 ==> #[trigger] r.0@[i] == icon_color_byte(i),
        r.1@.len() == 128,
        forall|j: int| 0 <= j < 128 ==> #[trigger] r.1@[j] as int == icon_mask_byte(j),
{
    let mut colors: Vec<u8> = Vec::new();
    let mut i: usize = 0;
    while i < 4096
        invariant
            i <= 4096,
            colors@.len() == i,
            forall|k: int| 0 <= k < i ==> #[trigger] colors@[k] == icon_color_byte(k),
        decreases 4096 - i,
    {
        let pixel = i / 4;
        let y = 31 - (pixel / 32) as i32;
        let x = (pixel % 32) as i32;
        let byte = match icon_pixel_exec(x, y) {
            Some(c) => if i % 4 == 0 {
                c.2
            } else if i % 4 == 1 {
                c.1
            } else if i % 4 == 2 {
                c.0
            } else {
                255
            },
            None => 0,
        };
        colors.push(byte);
        i = i + 1;
    }
    let mut mask: Vec<u8> = Vec::new();
    let mut j: usize = 0;
    while j < 128
        invariant
            j <= 128,
            mask@.len() == j,
            forall|k: int| 0 <= k < j ==> #[trigger] mask@[k] as int == icon_mask_byte(k),
        decreases 128 - j,
    {
        let y = 31 - (j / 4) as i32;
        let c = (j % 4) as i32;
        let mut acc: u32 = 0;
        let mut n: i32 = 0;
        proof {
            lemma2_to64();
        }
        while n < 8
            invariant
                0 <= n <= 8,
                0 <= c < 4,
                0 <= y < 32,
                acc as int == mask_prefix(y as int, c as int, n as nat),
                acc < pow2(n as nat),
                pow2(8) == 256,
            decreases 8 - n,
        {
            proof {
                lemma_pow2_unfold((n + 1) as nat);
                if n + 1 < 8 {
                    lemma_pow2_strictly_increases((n + 1) as nat, 8);
                }
            }
            let bit: u32 = if icon_pixel_exec(8 * c + n, y).is_none() {
                1
            } else {
                0
            };
            let ghost before = acc as int;
            acc = acc * 2 + bit;
            n = n + 1;
            assert(mask_prefix(y as int, c as int, n as nat) == 2 * mask_prefix(
                y as int,
                c as int,
                (n - 1) as nat,
            ) + (if icon_pixel(8 * c + n - 1, y as int) is None {
                1int
            } else {
                0int
            }));
        }
        mask.push(acc as u8);
        j = j + 1;
    }
    (colors, mask)
}

} // verus!

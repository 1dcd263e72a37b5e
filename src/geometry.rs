use vstd::arithmetic::div_mod::{lemma_fundamental_div_mod, lemma_fundamental_div_mod_converse};
use vstd::prelude::*;

verus! {

/// An exact fraction `num / den` in lowest terms; a zero `den` stands for a
/// division by zero.
#[derive(Clone, Copy, Debug, PartialEq, Eq, Structural)]
pub struct Ratio {
    pub num: i64,
    pub den: u32,
}

/// Size of the window in physical pixels.
#[derive(Clone, Copy, Debug, PartialEq, Eq, Structural)]
pub struct Resolution {
    pub xres: u32,
    pub yres: u32,
}

/// Pointer location in physical pixels, from the window's top-left corner.
#[derive(Clone, Copy, Debug, PartialEq, Eq, Structural)]
pub struct PixelPos {
    pub x: i32,
    pub y: i32,
}

/// Cursor position in scene space, where one unit is the window's height.
#[derive(Clone, Copy, Debug, PartialEq, Eq, Structural)]
pub struct CursorPos {
    pub x: Ratio,
    pub y: Ratio,
}

/// Rectangle in scene space: origin, width and height.
#[derive(Clone, Copy, Debug, PartialEq, Eq, Structural)]
pub struct ScreenRect {
    pub x: Ratio,
    pub y: Ratio,
    pub w: Ratio,
    pub h: Ratio,
}

/// Greatest common divisor, by Euclid's algorithm.
pub open spec fn gcd(a: nat, b: nat) -> nat
    decreases b,
{
    if b == 0 {
        a
    } else {
        gcd(b, a % b)
    }
}

pub open spec fn abs(x: int) -> nat {
    if x < 0 {
        (-x) as nat
    } else {
        x as nat
    }
}

/// `num / den` with both divided by their greatest common divisor; `0 / 0`
/// stays as it is.
pub open spec fn reduced(num: int, den: nat) -> Ratio {
    let g = gcd(abs(num), den);
    if g == 0 {
        Ratio { num: 0, den: 0 }
    } else {
        Ratio {
            num: (if num < 0 {
                -(abs(num) / g)
            } else {
                (abs(num) / g) as int
            }) as i64,
            den: (den / g) as u32,
        }
    }
}

proof fn lemma_gcd_bounded(a: nat, b: nat)
    ensures
        gcd(a, b) <= if a > b { a } else { b },
        (a > 0 || b > 0) ==> gcd(a, b) > 0,
    decreases b,
{
    if b != 0 {
        lemma_gcd_bounded(b, a % b);
    }
}

proof fn lemma_gcd_scale(a: nat, b: nat, k: nat)
    requires
        k > 0,
    ensures
        gcd(k * a, k * b) == k * gcd(a, b),
    decreases b,
{
    if b == 0 {
        assert(k * b == 0) by (nonlinear_arith)
            requires
                b == 0,
        ;
    } else {
        let q = a / b;
        let r = a % b;
        lemma_fundamental_div_mod(a as int, b as int);
        assert(k * b > 0 && k * a == q * (k * b) + k * r && 0 <= k * r < k * b) by (nonlinear_arith)
            requires
                k > 0,
                b > 0,
                a == b * q + r,
                0 <= r < b,
        ;
        lemma_fundamental_div_mod_converse((k * a) as int, (k * b) as int, q as int, (k * r) as int);
        lemma_gcd_scale(b, r, k);
        assert((k * a) % (k * b) == k * (a % b));
    }
}

proof fn lemma_div_scale(a: nat, g: nat, k: nat)
    requires
        k > 0,
        g > 0,
    ensures
        (k * a) / (k * g) == a / g,
{
    let q = a / g;
    let r = a % g;
    lemma_fundamental_div_mod(a as int, g as int);
    assert(k * g > 0 && k * a == q * (k * g) + k * r && 0 <= k * r < k * g) by (nonlinear_arith)
        requires
            k > 0,
            g > 0,
            a == g * q + r,
            0 <= r < g,
    ;
    lemma_fundamental_div_mod_converse((k * a) as int, (k * g) as int, q as int, (k * r) as int);
}

/// Scene space does not depend on the pixel resolution: windows whose sizes
/// differ by a whole factor `k` hand scenes the same rectangle.
pub proof fn lemma_screen_rect_scale_free(res: Resolution, scaled: Resolution, k: nat)
    requires
        k > 0,
        scaled.xres == k * res.xres,
        scaled.yres == k * res.yres,
    ensures
        screen_rect_spec(scaled) == screen_rect_spec(res),
{
    let a = res.xres as nat;
    let b = res.yres as nat;
    lemma_gcd_scale(a, b, k);
    let g = gcd(a, b);
    if g > 0 {
        lemma_div_scale(a, g, k);
        lemma_div_scale(b, g, k);
        assert(k * g > 0) by (nonlinear_arith)
            requires
                k > 0,
                g > 0,
        ;
    } else {
        assert(k * g == 0) by (nonlinear_arith)
            requires
                g == 0,
        ;
    }
}

fn gcd_u64(a: u64, b: u64) -> (r: u64)
    ensures
        r == gcd(a as nat, b as nat),
{
    let mut x: u64 = a;
    let mut y: u64 = b;
    while y != 0
        invariant
            gcd(x as nat, y as nat) == gcd(a as nat, b as nat),
        decreases y,
    {
        let t: u64 = x % y;
        x = y;
        y = t;
    }
    x
}

/// The fraction `num / den` in lowest terms.
pub fn ratio(num: i64, den: u32) -> (r: Ratio)
    requires
        num > i64::MIN,
    ensures
        r == reduced(num as int, den as nat),
{
    let m: u64 = if num < 0 { (-num) as u64 } else { num as u64 };
    let g: u64 = gcd_u64(m, den as u64);
    proof {
        lemma_gcd_bounded(m as nat, den as nat);
    }
    if g == 0 {
        return Ratio { num: 0, den: 0 };
    }
    let q: u64 = m / g;
    proof {
        assert(q <= m) by (nonlinear_arith)
            requires
                q == m / g,
                g > 0,
        ;
        assert((den as u64) / g <= den as u64) by (nonlinear_arith)
            requires
                g > 0,
        ;
    }
    let n: i64 = if num < 0 { -(q as i64) } else { q as i64 };
    Ratio { num: n, den: ((den as u64) / g) as u32 }
}

/// Both axes are divided by the height, so that a unit spans the same
/// physical distance horizontally and vertically.
pub open spec fn normalized_spec(res: Resolution, p: PixelPos) -> CursorPos {
    CursorPos { x: reduced(p.x as int, res.yres as nat), y: reduced(p.y as int, res.yres as nat) }
}

/// Origin at zero, height one, width the aspect ratio `xres / yres`.
pub open spec fn screen_rect_spec(res: Resolution) -> ScreenRect {
    ScreenRect {
        x: Ratio { num: 0, den: 1 },
        y: Ratio { num: 0, den: 1 },
        w: reduced(res.xres as int, res.yres as nat),
        h: Ratio { num: 1, den: 1 },
    }
}

/// Projects a pointer location into height-normalized scene space.
pub fn normalize_cursor(res: Resolution, p: PixelPos) -> (r: CursorPos)
    ensures
        r == normalized_spec(res, p),
{
    CursorPos { x: ratio(p.x as i64, res.yres), y: ratio(p.y as i64, res.yres) }
}

/// The rectangle that scenes see for a window of the given size.
pub fn screen_rect_for(res: Resolution) -> (r: ScreenRect)
    ensures
        r == screen_rect_spec(res),
{
    ScreenRect {
        x: Ratio { num: 0, den: 1 },
        y: Ratio { num: 0, den: 1 },
        w: ratio(res.xres as i64, res.yres),
        h: Ratio { num: 1, den: 1 },
    }
}

} // verus!

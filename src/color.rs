use vstd::prelude::*;

verus! {

/// RGBA color value representation with four unsigned 8-bit ints.
#[derive(Debug, Clone, Copy, PartialEq, Eq, Structural, PartialOrd)]
pub struct Color {
    /// Red
    pub r: u8,
    /// Green
    pub g: u8,
    /// Blue
    pub b: u8,
    /// Alpha
    pub a: u8,
}

/// One channel of `x + y`, taken modulo 256.
pub open spec fn wrap_add(x: u8, y: u8) -> u8 {
    ((x + y) % 256) as u8
}

/// One channel of `x - y`, taken modulo 256 (never negative).
pub open spec fn wrap_sub(x: u8, y: u8) -> u8 {
    ((x - y + 256) % 256) as u8
}

/// Channel `k` of `n + 1` evenly spaced stops from `from` to `to`, rounded down:
/// `((n - k) * from + k * to) / n`, and `from` itself when there is a single stop.
pub open spec fn lerp_channel(from: u8, to: u8, k: int, n: int) -> int {
    if n == 0 {
        from as int
    } else {
        ((n - k) * from + k * to) / n
    }
}

/// The color at position `k` of a gradient of `steps` colors from `base` to `target`.
pub open spec fn gradient_color(base: Color, target: Color, k: int, steps: int) -> Color {
    let n = steps - 1;
    Color {
        r: lerp_channel(base.r, target.r, k, n) as u8,
        g: lerp_channel(base.g, target.g, k, n) as u8,
        b: lerp_channel(base.b, target.b, k, n) as u8,
        a: lerp_channel(base.a, target.a, k, n) as u8,
    }
}

proof fn lemma_lerp_bounds(from: u8, to: u8, k: int, n: int)
    requires
        0 <= k <= n,
    ensures
        0 <= lerp_channel(from, to, k, n) <= 255,
        k == 0 ==> lerp_channel(from, to, k, n) == from,
        0 < n == k ==> lerp_channel(from, to, k, n) == to,
{
    if n > 0 {
        let s = (n - k) * from + k * to;
        assert(0 <= s <= 255 * n) by (nonlinear_arith)
            requires
                s == (n - k) * from + k * to,
                0 <= k <= n,
                0 <= from <= 255,
                0 <= to <= 255,
        ;
        assert(0 <= s / n <= 255) by (nonlinear_arith)
            requires
                0 <= s <= 255 * n,
                n > 0,
        ;
        if k == 0 {
            assert(s == n * from) by (nonlinear_arith)
                requires
                    s == (n - k) * from + k * to,
                    k == 0,
            ;
            assert(s / n == from as int) by (nonlinear_arith)
                requires
                    s == n * from,
                    n > 0,
            ;
        }
        if k == n {
            assert(s == n * to) by (nonlinear_arith)
                requires
                    s == (n - k) * from + k * to,
                    k == n,
            ;
            assert(s / n == to as int) by (nonlinear_arith)
                requires
                    s == n * to,
                    n > 0,
            ;
        }
    }
}

/// Channel `k` of `n + 1` evenly spaced stops from `from` to `to`.
fn lerp_u8(from: u8, to: u8, k: u64, n: u64) -> (v: u8)
    requires
        0 < n <= u32::MAX,
        k <= n,
    ensures
        v == lerp_channel(from, to, k as int, n as int),
{
    proof {
        lemma_lerp_bounds(from, to, k as int, n as int);
        assert((n - k) * from <= 255 * (u32::MAX as int)) by (nonlinear_arith)
            requires
                k <= n <= u32::MAX,
                from <= 255,
        ;
        assert(k * to <= 255 * (u32::MAX as int)) by (nonlinear_arith)
            requires
                k <= u32::MAX,
                to <= 255,
        ;
    }
    let s: u64 = (n - k) * (from as u64) + k * (to as u64);
    (s / n) as u8
}

/// The gray of an escape count: the count narrowed to 8 bits in red, green
/// and blue, fully opaque.
pub open spec fn escape_color(count: int) -> Color {
    let v = (count % 256) as u8;
    Color { r: v, g: v, b: v, a: 255 }
}

/// Byte `j` of the RGBA bytes of `c` (`j` counted modulo 4).
pub open spec fn channel(c: Color, j: int) -> u8 {
    if j % 4 == 0 {
        c.r
    } else if j % 4 == 1 {
        c.g
    } else if j % 4 == 2 {
        c.b
    } else {
        c.a
    }
}

impl Color {
    /// Initialize a new color.
    pub fn new(r: u8, g: u8, b: u8, a: u8) -> (c: Self)
        ensures
            c == (Color { r, g, b, a }),
    {
        Self { r, g, b, a }
    }

    /// The gray of an escape count: the count narrowed to 8 bits (truncated)
    /// in red, green and blue, and alpha 255.
    pub fn from_escape(count: usize) -> (c: Self)
        ensures
            c == escape_color(count as int),
    {
        let v = (count % 256) as u8;
        Self { r: v, g: v, b: v, a: 255 }
    }

    /// Adds one color to self, channel by channel, wrapping around modulo 256.
    pub fn add(&self, rhs: &Color) -> (c: Self)
        ensures
            c.r == wrap_add(self.r, rhs.r),
            c.g == wrap_add(self.g, rhs.g),
            c.b == wrap_add(self.b, rhs.b),
            c.a == wrap_add(self.a, rhs.a),
    {
        Self {
            r: self.r.wrapping_add(rhs.r),
            g: self.g.wrapping_add(rhs.g),
            b: self.b.wrapping_add(rhs.b),
            a: self.a.wrapping_add(rhs.a),
        }
    }

    /// Subtracts one color from self, channel by channel, wrapping around modulo 256.
    pub fn sub(&self, rhs: &Color) -> (c: Self)
        ensures
            c.r == wrap_sub(self.r, rhs.r),
            c.g == wrap_sub(self.g, rhs.g),
            c.b == wrap_sub(self.b, rhs.b),
            c.a == wrap_sub(self.a, rhs.a),
    {
        Self {
            r: self.r.wrapping_sub(rhs.r),
            g: self.g.wrapping_sub(rhs.g),
            b: self.b.wrapping_sub(rhs.b),
            a: self.a.wrapping_sub(rhs.a),
        }
    }

    /// Calculates `steps` colors going from self to target, each channel
    /// interpolated linearly and rounded down. The first color is self and,
    /// when there are two or more, the last is target.
    pub fn gradient_of(&self, target: &Color, steps: u32) -> (g: Vec<Color>)
        ensures
            g@.len() == steps,
            forall|k: int| 0 <= k < steps ==> g@[k] == gradient_color(*self, *target, k, steps as int),
            steps >= 1 ==> g@[0] == *self,
            steps >= 2 ==> g@[steps - 1] == *target,
    {
        let mut g: Vec<Color> = Vec::new();
        if steps == 0 {
            return g;
        }
        if steps == 1 {
            g.push(*self);
            return g;
        }
        let n: u64 = (steps - 1) as u64;
        let mut k: u64 = 0;
        while k <= n
            invariant
                n == steps - 1,
                1 <= n < u32::MAX,
                k <= n + 1,
                g@.len() == k,
                forall|j: int| 0 <= j < k ==> g@[j] == gradient_color(*self, *target, j, steps as int),
            decreases n + 1 - k,
        {
            proof {
                lemma_lerp_bounds(self.r, target.r, k as int, n as int);
                lemma_lerp_bounds(self.g, target.g, k as int, n as int);
                lemma_lerp_bounds(self.b, target.b, k as int, n as int);
                lemma_lerp_bounds(self.a, target.a, k as int, n as int);
            }
            let c = Color {
                r: lerp_u8(self.r, target.r, k, n),
                g: lerp_u8(self.g, target.g, k, n),
                b: lerp_u8(self.b, target.b, k, n),
                a: lerp_u8(self.a, target.a, k, n),
            };
            g.push(c);
            k = k + 1;
        }
        proof {
            lemma_lerp_bounds(self.r, target.r, 0, n as int);
            lemma_lerp_bounds(self.g, target.g, 0, n as int);
            lemma_lerp_bounds(self.b, target.b, 0, n as int);
            lemma_lerp_bounds(self.a, target.a, 0, n as int);
            lemma_lerp_bounds(self.r, target.r, n as int, n as int);
            lemma_lerp_bounds(self.g, target.g, n as int, n as int);
            lemma_lerp_bounds(self.b, target.b, n as int, n as int);
            lemma_lerp_bounds(self.a, target.a, n as int, n as int);
        }
        g
    }
}

} // verus!

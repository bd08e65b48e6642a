//! Text decoration: ANSI escape sequences, decimal and hexadecimal numerals,
//! and the per-shape color generator.
use vstd::prelude::*;

verus! {

/// The digit character for `d` (`0`-`9`, then `a`-`f`).
pub open spec fn digit_char(d: nat) -> char {
    if d == 0 { '0' } else if d == 1 { '1' } else if d == 2 { '2' } else if d == 3 { '3' }
    else if d == 4 { '4' } else if d == 5 { '5' } else if d == 6 { '6' } else if d == 7 { '7' }
    else if d == 8 { '8' } else if d == 9 { '9' } else if d == 10 { 'a' } else if d == 11 { 'b' }
    else if d == 12 { 'c' } else if d == 13 { 'd' } else if d == 14 { 'e' } else { 'f' }
}

/// Decimal digits of `n`, most significant first, without leading zeros.
pub open spec fn decimal(n: nat) -> Seq<char>
    decreases n,
{
    if n < 10 {
        seq![digit_char(n)]
    } else {
        decimal(n / 10).push(digit_char(n % 10))
    }
}

/// Lower-case hexadecimal digits of `n`, most significant first, without leading zeros.
pub open spec fn hex(n: nat) -> Seq<char>
    decreases n,
{
    if n < 16 {
        seq![digit_char(n)]
    } else {
        hex(n / 16).push(digit_char(n % 16))
    }
}

pub open spec fn bold_code() -> Seq<char> {
    "\x1b[1m"@
}

pub open spec fn dim_code() -> Seq<char> {
    "\x1b[2m"@
}

pub open spec fn reset_code() -> Seq<char> {
    "\x1b[0m"@
}

/// The escape sequence that sets a 24-bit foreground color.
pub open spec fn rgb_code(r: u8, g: u8, b: u8) -> Seq<char> {
    "\x1b[38;2;"@ + decimal(r as nat) + ";"@ + decimal(g as nat) + ";"@ + decimal(b as nat) + "m"@
}

fn digit_str(d: usize) -> (r: &'static str)
    requires
        d < 16,
    ensures
        r@ == seq![digit_char(d as nat)],
{
    proof {
        reveal_strlit("0");
        reveal_strlit("1");
        reveal_strlit("2");
        reveal_strlit("3");
        reveal_strlit("4");
        reveal_strlit("5");
        reveal_strlit("6");
        reveal_strlit("7");
        reveal_strlit("8");
        reveal_strlit("9");
        reveal_strlit("a");
        reveal_strlit("b");
        reveal_strlit("c");
        reveal_strlit("d");
        reveal_strlit("e");
        reveal_strlit("f");
    }
    let r = if d == 0 { "0" } else if d == 1 { "1" } else if d == 2 { "2" } else if d == 3 { "3" }
    else if d == 4 { "4" } else if d == 5 { "5" } else if d == 6 { "6" } else if d == 7 { "7" }
    else if d == 8 { "8" } else if d == 9 { "9" } else if d == 10 { "a" } else if d == 11 { "b" }
    else if d == 12 { "c" } else if d == 13 { "d" } else if d == 14 { "e" } else { "f" };
    assert(r@ =~= seq![digit_char(d as nat)]);
    r
}

/// Appends the decimal digits of `n`.
pub fn push_decimal(out: &mut String, n: usize)
    ensures
        final(out)@ == old(out)@ + decimal(n as nat),
    decreases n,
{
    if n >= 10 {
        push_decimal(out, n / 10);
    }
    out.append(digit_str(n % 10));
    assert(decimal(n as nat) == if n < 10 { seq![digit_char(n as nat)] } else { decimal(
        (n / 10) as nat,
    ).push(digit_char((n % 10) as nat)) });
    assert(final(out)@ =~= old(out)@ + decimal(n as nat));
}

/// Appends the lower-case hexadecimal digits of `n`.
pub fn push_hex(out: &mut String, n: usize)
    ensures
        final(out)@ == old(out)@ + hex(n as nat),
    decreases n,
{
    if n >= 16 {
        push_hex(out, n / 16);
    }
    out.append(digit_str(n % 16));
    assert(hex(n as nat) == if n < 16 { seq![digit_char(n as nat)] } else { hex(
        (n / 16) as nat,
    ).push(digit_char((n % 16) as nat)) });
    assert(final(out)@ =~= old(out)@ + hex(n as nat));
}

/// A 24-bit color.
#[derive(Clone, Copy, Debug, PartialEq, Eq, Structural)]
pub struct Rgb {
    pub r: u8,
    pub g: u8,
    pub b: u8,
}

impl Rgb {
    /// Appends the escape sequence that makes this the foreground color.
    pub fn write_fg(&self, out: &mut String)
        ensures
            final(out)@ == old(out)@ + rgb_code(self.r, self.g, self.b),
    {
        out.append("\x1b[38;2;");
        push_decimal(out, self.r as usize);
        out.append(";");
        push_decimal(out, self.g as usize);
        out.append(";");
        push_decimal(out, self.b as usize);
        out.append("m");
        assert(final(out)@ =~= old(out)@ + rgb_code(self.r, self.g, self.b));
    }
}

/// The color used when a generator has an empty palette.
pub open spec fn fallback_color() -> Rgb {
    Rgb { r: 200, g: 200, b: 200 }
}

/// Maps a shape's identity hash to a stable color drawn from a palette.
pub struct ColorGenerator {
    pub palette: Vec<Rgb>,
}

impl ColorGenerator {
    /// The color assigned to `hash`: the palette entry at `hash` modulo the
    /// palette's length.
    pub open spec fn color_for(&self, hash: u64) -> Rgb {
        if self.palette@.len() == 0 {
            fallback_color()
        } else {
            self.palette@[(hash as int) % (self.palette@.len() as int)]
        }
    }

    pub fn new(palette: Vec<Rgb>) -> (r: ColorGenerator)
        ensures
            r.palette@ == palette@,
    {
        ColorGenerator { palette }
    }

    /// Returns the color for `hash`; equal hashes always give equal colors.
    pub fn generate_color(&self, hash: u64) -> (r: Rgb)
        ensures
            r == self.color_for(hash),
    {
        let n = self.palette.len();
        if n == 0 {
            Rgb { r: 200, g: 200, b: 200 }
        } else {
            let i = (hash % (n as u64)) as usize;
            self.palette[i]
        }
    }
}

impl Clone for ColorGenerator {
    fn clone(&self) -> (r: ColorGenerator)
        ensures
            r.palette@ == self.palette@,
    {
        ColorGenerator { palette: self.palette.clone() }
    }
}

/// The default palette: twelve evenly spread, medium-bright hues.
pub open spec fn default_palette() -> Seq<Rgb> {
    seq![
        Rgb { r: 230, g: 102, b: 102 },
        Rgb { r: 230, g: 166, b: 102 },
        Rgb { r: 230, g: 230, b: 102 },
        Rgb { r: 166, g: 230, b: 102 },
        Rgb { r: 102, g: 230, b: 102 },
        Rgb { r: 102, g: 230, b: 166 },
        Rgb { r: 102, g: 230, b: 230 },
        Rgb { r: 102, g: 166, b: 230 },
        Rgb { r: 102, g: 102, b: 230 },
        Rgb { r: 166, g: 102, b: 230 },
        Rgb { r: 230, g: 102, b: 230 },
        Rgb { r: 230, g: 102, b: 166 },
    ]
}

impl Default for ColorGenerator {
    /// A generator over the default palette.
    fn default() -> (r: ColorGenerator)
        ensures
            r.palette@ == default_palette(),
    {
        let palette = vec![
            Rgb { r: 230, g: 102, b: 102 },
            Rgb { r: 230, g: 166, b: 102 },
            Rgb { r: 230, g: 230, b: 102 },
            Rgb { r: 166, g: 230, b: 102 },
            Rgb { r: 102, g: 230, b: 102 },
            Rgb { r: 102, g: 230, b: 166 },
            Rgb { r: 102, g: 230, b: 230 },
            Rgb { r: 102, g: 166, b: 230 },
            Rgb { r: 102, g: 102, b: 230 },
            Rgb { r: 166, g: 102, b: 230 },
            Rgb { r: 230, g: 102, b: 230 },
            Rgb { r: 230, g: 102, b: 166 },
        ];
        assert(palette@ =~= default_palette());
        ColorGenerator { palette }
    }
}

} // verus!

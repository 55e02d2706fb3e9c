use vstd::prelude::*;

verus! {

#[verifier::external_type_specification]
pub struct ExRect(image::math::Rect);

/// Password to unlock encrypted PDFs.
#[derive(Debug, Clone)]
pub enum Password {
    User(String),
    Owner(String),
}

/// Resolution in dots per inch.
#[derive(Debug, Clone, Copy, PartialEq, Eq, Structural)]
pub enum DPI {
    /// The same DPI on both axes.
    Uniform(u32),
    /// DPI for the x and the y axis.
    XY(u32, u32),
}

/// Scales pages to a number of pixels.
#[derive(Debug, Clone, Copy, PartialEq, Eq, Structural)]
pub enum Scale {
    /// Fit each page within a square box of this many pixels.
    Uniform(u32),
    /// Fit each page horizontally within this many pixels.
    X(u32),
    /// Fit each page vertically within this many pixels.
    Y(u32),
    /// Fit each page within a box of these many pixels.
    XY(u32, u32),
}

/// A section of the page to crop to.
#[derive(Debug, Clone, Copy)]
pub struct Crop {
    inner: image::math::Rect,
}

/// Options for rendering PDFs.
#[derive(Debug, Clone)]
pub struct RenderOptions {
    /// Resolution in dots per inch.
    pub resolution: DPI,
    /// Scale pages to a number of pixels.
    pub scale: Option<Scale>,
    /// Render pages in greyscale.
    pub greyscale: bool,
    /// Crop a section of the page.
    pub crop: Option<Crop>,
    /// Password to unlock encrypted PDFs.
    pub password: Option<Password>,
    /// Use `pdftocairo` instead of `pdftoppm`.
    pub pdftocairo: bool,
}

/// The character of a decimal digit.
pub open spec fn digit(d: int) -> char {
    seq!['0', '1', '2', '3', '4', '5', '6', '7', '8', '9'][d]
}

/// The decimal notation of `n`, without sign or leading zeros.
pub open spec fn decimal(n: nat) -> Seq<char>
    decreases n,
{
    if n < 10 {
        seq![digit(n as int)]
    } else {
        decimal(n / 10).push(digit((n % 10) as int))
    }
}

fn digit_str(d: u32) -> (r: &'static str)
    requires
        d < 10,
    ensures
        r@ == seq![digit(d as int)],
{
    proof {
        reveal_strlit("0");
        reveal_strlit("1");
        reveal_strlit("2");
        reveal_strlit("3");
        reveal_strlit("4");
        reveal_strlit("5");
        reveal_strlit("6");
        reveal_strlit("7");
        reveal_strlit("8");
        reveal_strlit("9");
    }
    let r = if d == 0 {
        "0"
    } else if d == 1 {
        "1"
    } else if d == 2 {
        "2"
    } else if d == 3 {
        "3"
    } else if d == 4 {
        "4"
    } else if d == 5 {
        "5"
    } else if d == 6 {
        "6"
    } else if d == 7 {
        "7"
    } else if d == 8 {
        "8"
    } else {
        "9"
    };
    assert(r@ =~= seq![digit(d as int)]);
    r
}

/// The decimal notation of `n`.
pub(crate) fn decimal_string(n: u32) -> (r: String)
    ensures
        r@ == decimal(n as nat),
    decreases n,
{
    if n < 10 {
        String::from_str(digit_str(n))
    } else {
        let head = decimal_string(n / 10);
        let r = head.concat(digit_str(n % 10));
        assert(r@ =~= decimal((n / 10) as nat).push(digit((n % 10) as int)));
        r
    }
}

impl Crop {
    /// Left edge of the rectangle.
    pub closed spec fn x_spec(&self) -> u32 {
        self.inner.x
    }

    /// Top edge of the rectangle.
    pub closed spec fn y_spec(&self) -> u32 {
        self.inner.y
    }

    /// Width of the rectangle.
    pub closed spec fn width_spec(&self) -> u32 {
        self.inner.width
    }

    /// Height of the rectangle.
    pub closed spec fn height_spec(&self) -> u32 {
        self.inner.height
    }

    /// The rectangle spanned by two opposite corners, in either order.
    pub fn new(x1: u32, y1: u32, x2: u32, y2: u32) -> (r: Self)
        ensures
            r.x_spec() == if x1 < x2 { x1 } else { x2 },
            r.y_spec() == if y1 < y2 { y1 } else { y2 },
            r.x_spec() + r.width_spec() == if x1 < x2 { x2 } else { x1 },
            r.y_spec() + r.height_spec() == if y1 < y2 { y2 } else { y1 },
    {
        let (min_x, max_x) = if x1 < x2 { (x1, x2) } else { (x2, x1) };
        let (min_y, max_y) = if y1 < y2 { (y1, y2) } else { (y2, y1) };
        Crop {
            inner: image::math::Rect {
                x: min_x,
                y: min_y,
                width: max_x - min_x,
                height: max_y - min_y,
            },
        }
    }

    /// The rectangle of the given size whose top-left corner is `top_left`.
    pub fn from_top_left(width: u32, height: u32, top_left: (u32, u32)) -> (r: Self)
        ensures
            r.x_spec() == top_left.0,
            r.y_spec() == top_left.1,
            r.width_spec() == width,
            r.height_spec() == height,
    {
        Crop { inner: image::math::Rect { x: top_left.0, y: top_left.1, width, height } }
    }

    /// The square of side `size` whose top-left corner is `top_left`.
    pub fn square(size: u32, top_left: (u32, u32)) -> (r: Self)
        ensures
            r.x_spec() == top_left.0,
            r.y_spec() == top_left.1,
            r.width_spec() == size,
            r.height_spec() == size,
    {
        Crop { inner: image::math::Rect { x: top_left.0, y: top_left.1, width: size, height: size } }
    }

    /// Left edge of the rectangle.
    pub fn x(&self) -> (r: u32)
        ensures
            r == self.x_spec(),
    {
        self.inner.x
    }

    /// Top edge of the rectangle.
    pub fn y(&self) -> (r: u32)
        ensures
            r == self.y_spec(),
    {
        self.inner.y
    }

    /// Width of the rectangle.
    pub fn width(&self) -> (r: u32)
        ensures
            r == self.width_spec(),
    {
        self.inner.width
    }

    /// Height of the rectangle.
    pub fn height(&self) -> (r: u32)
        ensures
            r == self.height_spec(),
    {
        self.inner.height
    }
}

/// Tokens for the resolution.
pub open spec fn resolution_args(d: DPI) -> Seq<Seq<char>> {
    match d {
        DPI::Uniform(v) => seq!["-r"@, decimal(v as nat)],
        DPI::XY(x, y) => seq!["-rx"@, decimal(x as nat), "-ry"@, decimal(y as nat)],
    }
}

/// Tokens for the scale, if any.
pub open spec fn scale_args(s: Option<Scale>) -> Seq<Seq<char>> {
    match s {
        None => seq![],
        Some(Scale::Uniform(v)) => seq!["-scale-to"@, decimal(v as nat)],
        Some(Scale::X(x)) => seq!["-scale-to-x"@, decimal(x as nat)],
        Some(Scale::Y(y)) => seq!["-scale-to-y"@, decimal(y as nat)],
        Some(Scale::XY(x, y)) => seq![
            "-scale-to-x"@,
            decimal(x as nat),
            "-scale-to-y"@,
            decimal(y as nat),
        ],
    }
}

/// Token for greyscale rendering, if asked for.
pub open spec fn greyscale_args(g: bool) -> Seq<Seq<char>> {
    if g {
        seq!["-gray"@]
    } else {
        seq![]
    }
}

/// Tokens for the crop box, if any: x, y, width and height in that order.
pub open spec fn crop_args(c: Option<Crop>) -> Seq<Seq<char>> {
    match c {
        None => seq![],
        Some(c) => seq![
            "-cropbox"@,
            "-x"@,
            decimal(c.x_spec() as nat),
            "-y"@,
            decimal(c.y_spec() as nat),
            "-W"@,
            decimal(c.width_spec() as nat),
            "-H"@,
            decimal(c.height_spec() as nat),
        ],
    }
}

/// Tokens for the password, if any.
pub open spec fn password_args(p: Option<Password>) -> Seq<Seq<char>> {
    match p {
        None => seq![],
        Some(Password::User(s)) => seq!["-upw"@, s@],
        Some(Password::Owner(s)) => seq!["-opw"@, s@],
    }
}

/// The command-line tokens that stand for a set of options, in their fixed order.
pub open spec fn cli_args_spec(o: RenderOptions) -> Seq<Seq<char>> {
    resolution_args(o.resolution) + scale_args(o.scale) + greyscale_args(o.greyscale) + crop_args(
        o.crop,
    ) + password_args(o.password)
}

pub(crate) fn push_token(args: &mut Vec<String>, t: String)
    ensures
        final(args).deep_view() == old(args).deep_view().push(t@),
{
    args.push(t);
    assert(args.deep_view() =~= old(args).deep_view().push(t@));
}

pub(crate) fn push_flag(args: &mut Vec<String>, flag: &str)
    ensures
        final(args).deep_view() == old(args).deep_view().push(flag@),
{
    push_token(args, String::from_str(flag));
}

pub(crate) fn push_number(args: &mut Vec<String>, flag: &str, n: u32)
    ensures
        final(args).deep_view() == old(args).deep_view().push(flag@).push(decimal(n as nat)),
{
    push_flag(args, flag);
    push_token(args, decimal_string(n));
}

impl Default for RenderOptions {
    fn default() -> (r: Self)
        ensures
            r.resolution == DPI::Uniform(150),
            r.scale is None,
            !r.greyscale,
            r.crop is None,
            r.password is None,
            !r.pdftocairo,
    {
        RenderOptions {
            resolution: DPI::Uniform(150),
            scale: None,
            greyscale: false,
            crop: None,
            password: None,
            pdftocairo: false,
        }
    }
}

fn push_resolution(args: &mut Vec<String>, d: DPI)
    ensures
        final(args).deep_view() == old(args).deep_view() + resolution_args(d),
{
    match d {
        DPI::Uniform(dpi) => {
            push_number(args, "-r", dpi);
        },
        DPI::XY(dpi_x, dpi_y) => {
            push_number(args, "-rx", dpi_x);
            push_number(args, "-ry", dpi_y);
        },
    }
    assert(args.deep_view() =~= old(args).deep_view() + resolution_args(d));
}

fn push_scale(args: &mut Vec<String>, s: &Option<Scale>)
    ensures
        final(args).deep_view() == old(args).deep_view() + scale_args(*s),
{
    match s {
        None => {},
        Some(Scale::Uniform(v)) => {
            push_number(args, "-scale-to", *v);
        },
        Some(Scale::X(x)) => {
            push_number(args, "-scale-to-x", *x);
        },
        Some(Scale::Y(y)) => {
            push_number(args, "-scale-to-y", *y);
        },
        Some(Scale::XY(x, y)) => {
            push_number(args, "-scale-to-x", *x);
            push_number(args, "-scale-to-y", *y);
        },
    }
    assert(args.deep_view() =~= old(args).deep_view() + scale_args(*s));
}

fn push_greyscale(args: &mut Vec<String>, g: bool)
    ensures
        final(args).deep_view() == old(args).deep_view() + greyscale_args(g),
{
    if g {
        push_flag(args, "-gray");
    }
    assert(args.deep_view() =~= old(args).deep_view() + greyscale_args(g));
}

fn push_crop(args: &mut Vec<String>, c: &Option<Crop>)
    ensures
        final(args).deep_view() == old(args).deep_view() + crop_args(*c),
{
    match c {
        None => {},
        Some(crop) => {
            push_flag(args, "-cropbox");
            push_number(args, "-x", crop.x());
            push_number(args, "-y", crop.y());
            push_number(args, "-W", crop.width());
            push_number(args, "-H", crop.height());
        },
    }
    assert(args.deep_view() =~= old(args).deep_view() + crop_args(*c));
}

fn push_password(args: &mut Vec<String>, p: &Option<Password>)
    ensures
        final(args).deep_view() == old(args).deep_view() + password_args(*p),
{
    match p {
        None => {},
        Some(Password::User(pw)) => {
            push_flag(args, "-upw");
            push_token(args, String::from_str(pw.as_str()));
        },
        Some(Password::Owner(pw)) => {
            push_flag(args, "-opw");
            push_token(args, String::from_str(pw.as_str()));
        },
    }
    assert(args.deep_view() =~= old(args).deep_view() + password_args(*p));
}

impl RenderOptions {
    /// The command-line tokens for these options: resolution, scale, greyscale, crop and
    /// password flags, in that order.
    pub fn to_cli_args(&self) -> (r: Vec<String>)
        ensures
            r.deep_view() == cli_args_spec(*self),
    {
        let mut args: Vec<String> = Vec::new();
        assert(args.deep_view() =~= seq![]);
        push_resolution(&mut args, self.resolution);
        push_scale(&mut args, &self.scale);
        push_greyscale(&mut args, self.greyscale);
        push_crop(&mut args, &self.crop);
        push_password(&mut args, &self.password);
        assert(args.deep_view() =~= cli_args_spec(*self));
        args
    }
}

} // verus!

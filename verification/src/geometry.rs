//! Terminal geometry: coordinates, rectangles, and the rule that carves a
//! pane out of the screen from a side and a width fraction.

use std::ops::Add;
use std::ops::Not;
use std::ops::Sub;
use vstd::arithmetic::div_mod::lemma_fundamental_div_mod;
use vstd::arithmetic::div_mod::lemma_fundamental_div_mod_converse;
use vstd::prelude::*;
use vstd::std_specs::ops::AddSpecImpl;
use vstd::std_specs::ops::NotSpecImpl;
use vstd::std_specs::ops::SubSpecImpl;

verus! {

/// A point of the terminal grid with unbounded coordinates.
pub struct Point {
    pub y: int,
    pub x: int,
}

/// A rectangle of the terminal grid with unbounded coordinates: `min` is the
/// top-left corner, `max` the bottom-right corner, which lies just outside.
pub struct Rect {
    pub min: Point,
    pub max: Point,
}

impl Point {
    /// Both coordinates can be stored in an `i32`.
    pub open spec fn fits(self) -> bool {
        &&& i32::MIN <= self.y <= i32::MAX
        &&& i32::MIN <= self.x <= i32::MAX
    }

    /// The point moved by `by`, coordinate by coordinate.
    pub open spec fn plus(self, by: Point) -> Point {
        Point { y: self.y + by.y, x: self.x + by.x }
    }

    /// The point in `i32` coordinates; it is the same point where its
    /// coordinates can be stored.
    pub open spec fn stored(self) -> Pair {
        Pair { y: self.y as i32, x: self.x as i32 }
    }

    /// The point moved back by `by`, coordinate by coordinate.
    pub open spec fn minus(self, by: Point) -> Point {
        Point { y: self.y - by.y, x: self.x - by.x }
    }
}

impl Rect {
    /// Both corners can be stored in `i32` coordinates.
    pub open spec fn fits(self) -> bool {
        self.min.fits() && self.max.fits()
    }

    /// The top-left corner is not below or right of the bottom-right corner.
    pub open spec fn ordered(self) -> bool {
        self.min.y <= self.max.y && self.min.x <= self.max.x
    }

    /// Number of rows.
    pub open spec fn height(self) -> int {
        self.max.y - self.min.y
    }

    /// Number of columns.
    pub open spec fn width(self) -> int {
        self.max.x - self.min.x
    }

    /// Both corners moved by the corners of `by`.
    pub open spec fn shifted(self, by: Rect) -> Rect {
        Rect { min: self.min.plus(by.min), max: self.max.plus(by.max) }
    }

    /// The whole screen of a terminal with `size.y` rows and `size.x` columns.
    pub open spec fn screen(size: Point) -> Rect {
        Rect { min: Point { y: 0, x: 0 }, max: size }
    }

    /// The rectangle in `i32` coordinates; it is the same rectangle where
    /// its corners can be stored.
    pub open spec fn stored(self) -> Bounds {
        Bounds(
            Pair { y: self.min.y as i32, x: self.min.x as i32 },
            Pair { y: self.max.y as i32, x: self.max.x as i32 },
        )
    }
}

/// A row and a column of the terminal.
#[derive(Debug, Clone, Copy, PartialEq, Eq, Structural)]
pub struct Pair {
    pub y: i32,
    pub x: i32,
}

impl View for Pair {
    type V = Point;

    open spec fn view(&self) -> Point {
        Point { y: self.y as int, x: self.x as int }
    }
}

impl Pair {
    /// The top-left corner of the terminal.
    pub fn zeroed() -> (p: Pair)
        ensures
            p@ == (Point { y: 0, x: 0 }),
    {
        Pair { y: 0, x: 0 }
    }
}

impl Add for Pair {
    type Output = Pair;

    fn add(self, other: Pair) -> (sum: Pair) {
        Pair { y: self.y + other.y, x: self.x + other.x }
    }
}

impl AddSpecImpl for Pair {
    open spec fn obeys_add_spec() -> bool {
        true
    }

    open spec fn add_req(self, other: Pair) -> bool {
        self@.plus(other@).fits()
    }

    open spec fn add_spec(self, other: Pair) -> Pair {
        Pair { y: (self.y + other.y) as i32, x: (self.x + other.x) as i32 }
    }
}

impl Sub for Pair {
    type Output = Pair;

    fn sub(self, other: Pair) -> (difference: Pair) {
        Pair { y: self.y - other.y, x: self.x - other.x }
    }
}

impl SubSpecImpl for Pair {
    open spec fn obeys_sub_spec() -> bool {
        true
    }

    open spec fn sub_req(self, other: Pair) -> bool {
        self@.minus(other@).fits()
    }

    open spec fn sub_spec(self, other: Pair) -> Pair {
        Pair { y: (self.y - other.y) as i32, x: (self.x - other.x) as i32 }
    }
}

/// A rectangular region of the terminal: top-left corner, then the
/// bottom-right corner, which is exclusive.
#[derive(Debug, Clone, Copy, PartialEq, Eq, Structural)]
pub struct Bounds(pub Pair, pub Pair);

impl View for Bounds {
    type V = Rect;

    open spec fn view(&self) -> Rect {
        Rect { min: self.0@, max: self.1@ }
    }
}

impl Bounds {
    /// The empty rectangle in the top-left corner of the terminal.
    pub fn zeroed() -> (b: Bounds)
        ensures
            b@ == Rect::screen(Point { y: 0, x: 0 }),
    {
        Bounds(Pair::zeroed(), Pair::zeroed())
    }

    /// The whole screen of a terminal of the given size.
    pub fn screen(size: Pair) -> (b: Bounds)
        ensures
            b@ == Rect::screen(size@),
    {
        Bounds(Pair::zeroed(), size)
    }

    /// Adds the corners of `by` to the corners of `self`.
    pub fn shifted(self, by: Bounds) -> (b: Bounds)
        requires
            self@.shifted(by@).fits(),
        ensures
            b@ == self@.shifted(by@),
    {
        Bounds(self.0 + by.0, self.1 + by.1)
    }

    /// Whether `shifted` can be called with `by`.
    pub fn can_shift(self, by: Bounds) -> (ok: bool)
        ensures
            ok == self@.shifted(by@).fits(),
    {
        sum_fits(self.0.y, by.0.y) && sum_fits(self.0.x, by.0.x) && sum_fits(self.1.y, by.1.y)
            && sum_fits(self.1.x, by.1.x)
    }
}

/// Whether `a + b` can be stored in an `i32`.
fn sum_fits(a: i32, b: i32) -> (ok: bool)
    ensures
        ok == (i32::MIN <= a + b <= i32::MAX),
{
    let sum: i64 = a as i64 + b as i64;
    -2147483648 <= sum && sum <= 2147483647
}

/// The share of the screen that a pane takes, as the exact fraction
/// `num / den`.
#[derive(Debug, Clone, Copy, PartialEq, Eq, Structural)]
pub struct Fraction {
    pub num: u32,
    pub den: u32,
}

impl Fraction {
    /// A pane width: more than nothing, at most everything.
    pub open spec fn is_width(self) -> bool {
        0 < self.num <= self.den
    }

    /// `floor(len * num / den)`.
    pub open spec fn floor_of(self, len: int) -> int {
        (len * self.num) / (self.den as int)
    }

    /// `floor(len * (1 - num / den))`.
    pub open spec fn floor_of_rest(self, len: int) -> int {
        (len * (self.den - self.num)) / (self.den as int)
    }

    /// The fraction `num / den`.
    pub fn new(num: u32, den: u32) -> (f: Fraction)
        ensures
            f.num == num,
            f.den == den,
    {
        Fraction { num, den }
    }

    /// The whole.
    pub fn whole() -> (f: Fraction)
        ensures
            f == (Fraction { num: 1, den: 1 }),
            f.is_width(),
    {
        Fraction { num: 1, den: 1 }
    }

    /// One half.
    pub fn half() -> (f: Fraction)
        ensures
            f == (Fraction { num: 1, den: 2 }),
            f.is_width(),
    {
        Fraction { num: 1, den: 2 }
    }

    /// Whether the fraction lies in `(0, 1]`.
    pub fn valid_width(self) -> (ok: bool)
        ensures
            ok == self.is_width(),
    {
        0 < self.num && self.num <= self.den
    }

    /// What is left of the whole: `1 - num / den`.
    pub fn complement(self) -> (rest: Fraction)
        requires
            self.num <= self.den,
        ensures
            rest.den == self.den,
            rest.num == self.den - self.num,
            forall|len: int| rest.floor_of(len) == self.floor_of_rest(len),
    {
        Fraction { num: self.den - self.num, den: self.den }
    }

    /// `floor(len * num / den)` for a length on the terminal.
    pub fn scale(self, len: i64) -> (scaled: i64)
        requires
            0 < self.den,
            self.num <= self.den,
            -0x1_0000_0000 <= len <= 0x1_0000_0000,
        ensures
            scaled == self.floor_of(len as int),
            len >= 0 ==> 0 <= scaled <= len,
            len <= 0 ==> len <= scaled <= 0,
    {
        let n: i128 = self.num as i128;
        let d: i128 = self.den as i128;
        let l: i128 = len as i128;
        assert(-0x1_0000_0000 * 0x1_0000_0000 <= l * n <= 0x1_0000_0000 * 0x1_0000_0000)
            by (nonlinear_arith)
            requires
                -0x1_0000_0000 <= l <= 0x1_0000_0000,
                0 <= n <= 0x1_0000_0000,
        ;
        let a: i128 = l * n;
        proof {
            lemma_floor_bounds(len as int, self.num as int, self.den as int);
        }
        if a >= 0 {
            let q: i128 = a / d;
            q as i64
        } else {
            let m: i128 = -a;
            let c: i128 = (m + d - 1) / d;
            proof {
                let r: int = (m + d - 1) % (d as int);
                lemma_fundamental_div_mod((m + d - 1) as int, d as int);
                assert(a == d * (-c) + (d - 1 - r)) by (nonlinear_arith)
                    requires
                        m + d - 1 == d * c + r,
                        a == -m,
                ;
                lemma_fundamental_div_mod_converse(a as int, d as int, -c as int, d - 1 - r);
            }
            (-c) as i64
        }
    }
}

/// A fraction of at most one scales a length towards zero, never past it.
pub proof fn lemma_floor_bounds(len: int, num: int, den: int)
    requires
        0 <= num <= den,
        0 < den,
    ensures
        len >= 0 ==> 0 <= (len * num) / den <= len,
        len <= 0 ==> len <= (len * num) / den <= 0,
{
    let a = len * num;
    lemma_fundamental_div_mod(a, den);
    let q = a / den;
    let r = a % den;
    if len >= 0 {
        assert(0 <= a <= len * den) by (nonlinear_arith)
            requires
                a == len * num,
                0 <= num <= den,
                len >= 0,
        ;
        assert(0 <= q <= len) by (nonlinear_arith)
            requires
                a == den * q + r,
                0 <= r < den,
                0 <= a <= len * den,
                0 < den,
        ;
    }
    if len <= 0 {
        assert(len * den <= a <= 0) by (nonlinear_arith)
            requires
                a == len * num,
                0 <= num <= den,
                len <= 0,
        ;
        assert(len <= q <= 0) by (nonlinear_arith)
            requires
                a == den * q + r,
                0 <= r < den,
                len * den <= a <= 0,
                0 < den,
        ;
    }
}

/// What a width leaves free of a length of at least one is less than the
/// length: the pane takes at least one row or column.
pub proof fn lemma_floor_of_rest_below(len: int, width: Fraction)
    requires
        width.is_width(),
        1 <= len,
    ensures
        0 <= width.floor_of_rest(len) <= len - 1,
{
    let den = width.den as int;
    let a = len * (width.den - width.num);
    lemma_fundamental_div_mod(a, den);
    let q = a / den;
    let r = a % den;
    assert(0 <= a <= len * den - 1) by (nonlinear_arith)
        requires
            a == len * (den - width.num),
            0 < width.num <= den,
            1 <= len,
    ;
    assert(0 <= q <= len - 1) by (nonlinear_arith)
        requires
            a == den * q + r,
            0 <= r < den,
            0 <= a <= len * den - 1,
            0 < den,
    ;
}

/// Determines the side on which a pane should be located.
#[derive(Debug, Copy, Clone, PartialEq, Eq, Structural)]
pub enum ScreenSide {
    Left,
    Right,
    Top,
    Bottom,
    /// This option is not affected by width. It will always fill the screen.
    Full,
}

impl ScreenSide {
    /// The pane that this side and `width` carve out of `screen`.
    ///
    /// `Top` and `Left` keep the top-left corner and take `floor` of the
    /// share of the height, or of the width. `Bottom` and `Right` keep the
    /// bottom-right corner and start one past `floor` of what the share
    /// leaves free. `Full` is the screen itself.
    pub open spec fn place(self, screen: Rect, width: Fraction) -> Rect {
        match self {
            ScreenSide::Top => Rect {
                min: screen.min,
                max: Point { y: screen.min.y + width.floor_of(screen.height()), x: screen.max.x },
            },
            ScreenSide::Bottom => Rect {
                min: Point { y: width.floor_of_rest(screen.height()) + 1, x: screen.min.x },
                max: screen.max,
            },
            ScreenSide::Left => Rect {
                min: screen.min,
                max: Point { y: screen.max.y, x: screen.min.x + width.floor_of(screen.width()) },
            },
            ScreenSide::Right => Rect {
                min: Point {
                    y: screen.min.y,
                    x: screen.min.x + width.floor_of_rest(screen.width()) + 1,
                },
                max: screen.max,
            },
            ScreenSide::Full => screen,
        }
    }

    /// The side across the screen; `Full` is its own opposite.
    pub open spec fn opposite(self) -> ScreenSide {
        match self {
            ScreenSide::Top => ScreenSide::Bottom,
            ScreenSide::Bottom => ScreenSide::Top,
            ScreenSide::Left => ScreenSide::Right,
            ScreenSide::Right => ScreenSide::Left,
            ScreenSide::Full => ScreenSide::Full,
        }
    }

    /// Computes the pane that this side and `width` carve out of
    /// `screen_bounds`.
    pub fn get_bounds(&self, screen_bounds: Bounds, width: Fraction) -> (placed: Bounds)
        requires
            width.is_width(),
            self.place(screen_bounds@, width).fits(),
        ensures
            placed@ == self.place(screen_bounds@, width),
    {
        let height: i64 = screen_bounds.1.y as i64 - screen_bounds.0.y as i64;
        let columns: i64 = screen_bounds.1.x as i64 - screen_bounds.0.x as i64;
        match self {
            ScreenSide::Top => {
                let rows: i64 = width.scale(height);
                Bounds(
                    screen_bounds.0,
                    Pair { y: (screen_bounds.0.y as i64 + rows) as i32, x: screen_bounds.1.x },
                )
            },
            ScreenSide::Bottom => {
                let free: i64 = width.complement().scale(height);
                Bounds(Pair { y: (free + 1) as i32, x: screen_bounds.0.x }, screen_bounds.1)
            },
            ScreenSide::Left => {
                let taken: i64 = width.scale(columns);
                Bounds(
                    screen_bounds.0,
                    Pair { y: screen_bounds.1.y, x: (screen_bounds.0.x as i64 + taken) as i32 },
                )
            },
            ScreenSide::Right => {
                let free: i64 = width.complement().scale(columns);
                Bounds(
                    Pair { y: screen_bounds.0.y, x: (screen_bounds.0.x as i64 + free + 1) as i32 },
                    screen_bounds.1,
                )
            },
            ScreenSide::Full => screen_bounds,
        }
    }

    /// Whether `get_bounds` can be called: the pane's corners can be stored.
    pub fn can_place(&self, screen_bounds: Bounds, width: Fraction) -> (ok: bool)
        requires
            width.is_width(),
        ensures
            ok == self.place(screen_bounds@, width).fits(),
    {
        match self {
            ScreenSide::Top => {
                proof {
                    lemma_floor_bounds(
                        screen_bounds@.height(),
                        width.num as int,
                        width.den as int,
                    );
                }
                true
            },
            ScreenSide::Bottom => {
                let height: i64 = screen_bounds.1.y as i64 - screen_bounds.0.y as i64;
                let free: i64 = width.complement().scale(height);
                -2147483648 <= free + 1 && free + 1 <= 2147483647
            },
            ScreenSide::Left => {
                proof {
                    lemma_floor_bounds(
                        screen_bounds@.width(),
                        width.num as int,
                        width.den as int,
                    );
                }
                true
            },
            ScreenSide::Right => {
                let columns: i64 = screen_bounds.1.x as i64 - screen_bounds.0.x as i64;
                let free: i64 = width.complement().scale(columns);
                screen_bounds.0.x as i64 + free + 1 <= 2147483647
            },
            ScreenSide::Full => true,
        }
    }
}

impl Not for ScreenSide {
    type Output = ScreenSide;

    fn not(self) -> (other: ScreenSide) {
        match self {
            ScreenSide::Top => ScreenSide::Bottom,
            ScreenSide::Bottom => ScreenSide::Top,
            ScreenSide::Left => ScreenSide::Right,
            ScreenSide::Right => ScreenSide::Left,
            ScreenSide::Full => ScreenSide::Full,
        }
    }
}

impl NotSpecImpl for ScreenSide {
    open spec fn obeys_not_spec() -> bool {
        true
    }

    open spec fn not_req(self) -> bool {
        true
    }

    open spec fn not_spec(self) -> ScreenSide {
        self.opposite()
    }
}

/// Placing a pane and then placing `Full` inside it gives the pane back,
/// whatever width `Full` is given.
pub proof fn lemma_full_keeps_pane(screen: Rect, side: ScreenSide, width: Fraction, any: Fraction)
    ensures
        ScreenSide::Full.place(side.place(screen, width), any) == side.place(screen, width),
{
}

/// The opposite of the opposite side is the side itself.
pub proof fn lemma_opposite_twice(side: ScreenSide)
    ensures
        side.opposite().opposite() == side,
{
}

/// On a screen whose corners are in order, every pane stays inside the
/// screen's far corner, and `Top`, `Left` and `Full` panes are in order
/// themselves.
pub proof fn lemma_place_within(screen: Rect, side: ScreenSide, width: Fraction)
    requires
        screen.ordered(),
        width.is_width(),
    ensures
        side.place(screen, width).max.y <= screen.max.y,
        side.place(screen, width).max.x <= screen.max.x,
        side.place(screen, width).min.x >= screen.min.x,
        side == ScreenSide::Top || side == ScreenSide::Left || side == ScreenSide::Full
            ==> side.place(screen, width).ordered(),
{
    lemma_floor_bounds(screen.height(), width.num as int, width.den as int);
    lemma_floor_bounds(screen.width(), width.num as int, width.den as int);
    lemma_floor_bounds(screen.width(), width.den - width.num, width.den as int);
}

/// On the whole screen of a terminal every pane can be stored, whatever the
/// side and the width.
pub proof fn lemma_place_on_screen_fits(size: Pair, side: ScreenSide, width: Fraction)
    requires
        width.is_width(),
    ensures
        side.place(Rect::screen(size@), width).fits(),
        0 <= size.y ==> 0 <= side.place(Rect::screen(size@), width).min.y <= size.y + 1,
        0 <= size.x ==> 0 <= side.place(Rect::screen(size@), width).min.x <= size.x + 1,
        0 <= size.y ==> 0 <= side.place(Rect::screen(size@), width).max.y <= size.y,
        0 <= size.x ==> 0 <= side.place(Rect::screen(size@), width).max.x <= size.x,
{
    let rows = size.y as int;
    let columns = size.x as int;
    lemma_floor_bounds(rows, width.num as int, width.den as int);
    lemma_floor_bounds(columns, width.num as int, width.den as int);
    lemma_floor_bounds(rows, width.den - width.num, width.den as int);
    lemma_floor_bounds(columns, width.den - width.num, width.den as int);
    if 1 <= rows {
        lemma_floor_of_rest_below(rows, width);
    }
    if 1 <= columns {
        lemma_floor_of_rest_below(columns, width);
    }
}

} // verus!

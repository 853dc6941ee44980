//! Which way up the page is, and what a point on the glass is to the window.

use vstd::prelude::*;

use crate::text::same_text;

verus! {

#[derive(Debug, Clone, Copy, PartialEq, Eq, Structural)]
pub enum Orientation {
    Up,
    Down,
    Left,
    Right,
}

impl Default for Orientation {
    fn default() -> (r: Self)
        ensures
            r == Orientation::Up,
    {
        Orientation::Up
    }
}

impl Orientation {
    /// The letter the window manager knows this way up by.
    pub open spec fn lettered(self) -> char {
        match self {
            Orientation::Up => 'U',
            Orientation::Down => 'D',
            Orientation::Left => 'L',
            Orientation::Right => 'R',
        }
    }

    pub open spec fn of_letter(letter: Seq<char>) -> Orientation {
        if letter == seq!['D'] {
            Orientation::Down
        } else if letter == seq!['L'] {
            Orientation::Left
        } else if letter == seq!['R'] {
            Orientation::Right
        } else {
            Orientation::Up
        }
    }

    /// What the accelerometer's position codes name.
    pub open spec fn of_tilt(code: i32) -> Option<Orientation> {
        if code == 15 {
            Some(Orientation::Up)
        } else if code == 16 {
            Some(Orientation::Down)
        } else if code == 17 {
            Some(Orientation::Right)
        } else if code == 18 {
            Some(Orientation::Left)
        } else {
            None
        }
    }

    /// Where a point of the panel is in a window this way up and this large.
    pub open spec fn turned(self, x: int, y: int, w: int, h: int) -> (int, int) {
        match self {
            Orientation::Up => (x, y),
            Orientation::Down => (w - x, h - y),
            Orientation::Left => (y, h - x),
            Orientation::Right => (w - y, x),
        }
    }

    pub fn letter(self) -> (r: char)
        ensures
            r == self.lettered(),
    {
        match self {
            Orientation::Up => 'U',
            Orientation::Down => 'D',
            Orientation::Left => 'L',
            Orientation::Right => 'R',
        }
    }

    /// The way up a letter names; upright for any other text.
    pub fn from_letter(letter: &str) -> (r: Self)
        ensures
            r == Orientation::of_letter(letter@),
    {
        proof {
            reveal_strlit("D");
            reveal_strlit("L");
            reveal_strlit("R");
            assert("D"@ =~= seq!['D']);
            assert("L"@ =~= seq!['L']);
            assert("R"@ =~= seq!['R']);
        }
        if same_text(letter, "D") {
            Orientation::Down
        } else if same_text(letter, "L") {
            Orientation::Left
        } else if same_text(letter, "R") {
            Orientation::Right
        } else {
            Orientation::Up
        }
    }

    pub fn from_tilt(code: i32) -> (r: Option<Self>)
        ensures
            r == Orientation::of_tilt(code),
    {
        match code {
            15 => Some(Orientation::Up),
            16 => Some(Orientation::Down),
            17 => Some(Orientation::Right),
            18 => Some(Orientation::Left),
            _ => None,
        }
    }

    /// A point of the panel, in the panel's own upright pixels, as a point of the
    /// window. The bounds on the point are those of the arithmetic.
    pub fn apply(self, x: i32, y: i32, window: (u16, u16)) -> (r: (i32, i32))
        requires
            i32::MIN + 65536 < x,
            i32::MIN + 65536 < y,
        ensures
            (r.0 as int, r.1 as int) == self.turned(
                x as int,
                y as int,
                window.0 as int,
                window.1 as int,
            ),
    {
        let w: i32 = window.0 as i32;
        let h: i32 = window.1 as i32;
        match self {
            Orientation::Up => (x, y),
            Orientation::Down => (w - x, h - y),
            Orientation::Left => (y, h - x),
            Orientation::Right => (w - y, x),
        }
    }
}

/// A way up written as its letter reads back as itself.
pub proof fn an_orientation_survives_being_written_down(way: Orientation)
    ensures
        Orientation::of_letter(seq![way.lettered()]) == way,
{
    assert(seq!['U'][0] != seq!['D'][0]);
    assert(seq![way.lettered()][0] == way.lettered());
    assert(seq!['D'][0] == 'D');
    assert(seq!['L'][0] == 'L');
    assert(seq!['R'][0] == 'R');
}

/// Turned half round twice, a point is where it was.
pub proof fn mirroring_twice_is_the_identity(x: int, y: int, w: int, h: int)
    ensures
        ({
            let (a, b) = Orientation::Down.turned(x, y, w, h);
            Orientation::Down.turned(a, b, w, h) == (x, y)
        }),
{
}

/// The two quarter turns mirror each other: they land on points that are half a
/// turn apart.
pub proof fn the_quarter_turns_are_half_a_turn_apart(x: int, y: int, w: int, h: int)
    ensures
        ({
            let (a, b) = Orientation::Left.turned(x, y, w, h);
            Orientation::Down.turned(a, b, w, h) == Orientation::Right.turned(x, y, w, h)
        }),
{
}

/// A point on the panel lands inside the window, upright in an upright window
/// and on its side in one whose axes are exchanged.
pub proof fn a_point_lands_inside_the_window(way: Orientation, x: int, y: int, w: int, h: int)
    requires
        way == Orientation::Up || way == Orientation::Down ==> 0 <= x <= w && 0 <= y <= h,
        way == Orientation::Left || way == Orientation::Right ==> 0 <= x <= h && 0 <= y <= w,
    ensures
        0 <= way.turned(x, y, w, h).0 <= w,
        0 <= way.turned(x, y, w, h).1 <= h,
{
}

/// The four codes name the four ways up, each its own, and no other code names
/// any.
pub proof fn each_way_up_has_one_code(way: Orientation)
    ensures
        exists|code: i32| #[trigger] Orientation::of_tilt(code) == Some(way),
        forall|a: i32, b: i32|
            #[trigger] Orientation::of_tilt(a) == Some(way) && #[trigger] Orientation::of_tilt(b)
                == Some(way) ==> a == b,
{
    assert(Orientation::of_tilt(15) == Some(Orientation::Up));
    assert(Orientation::of_tilt(16) == Some(Orientation::Down));
    assert(Orientation::of_tilt(17) == Some(Orientation::Right));
    assert(Orientation::of_tilt(18) == Some(Orientation::Left));
}

/// Held upright a point stays, and half round it is as far from the other corner. A
/// quarter turn exchanges the axes: to the right, what was down runs back from the right
/// edge and what was across runs down; to the left, what was down runs across and what
/// was across runs back up from the foot.
pub proof fn a_turn_moves_the_corners(x: int, y: int, w: int, h: int)
    ensures
        Orientation::Up.turned(x, y, w, h) == (x, y),
        Orientation::Down.turned(0, 0, w, h) == (w, h),
        Orientation::Right.turned(0, 0, w, h) == (w, 0int),
        Orientation::Left.turned(0, 0, w, h) == (0int, h),
        Orientation::Down.turned(x, y, w, h).0 + x == w,
        Orientation::Down.turned(x, y, w, h).1 + y == h,
        Orientation::Right.turned(x, y, w, h).0 + y == w,
        Orientation::Right.turned(x, y, w, h).1 == x,
        Orientation::Left.turned(x, y, w, h).0 == y,
        Orientation::Left.turned(x, y, w, h).1 + x == h,
{
}

/// The codes of the sensor and the letters of the window manager.
pub proof fn the_codes_and_letters_of_the_ways_up(code: i32, letter: Seq<char>)
    ensures
        Orientation::of_tilt(15) == Some(Orientation::Up),
        Orientation::of_tilt(16) == Some(Orientation::Down),
        Orientation::of_tilt(17) == Some(Orientation::Right),
        Orientation::of_tilt(18) == Some(Orientation::Left),
        Orientation::of_tilt(code) is Some <==> 15 <= code <= 18,
        Orientation::Up.lettered() == 'U',
        Orientation::Down.lettered() == 'D',
        Orientation::Left.lettered() == 'L',
        Orientation::Right.lettered() == 'R',
        letter != seq!['D'] && letter != seq!['L'] && letter != seq!['R'] ==> Orientation::of_letter(
            letter,
        ) == Orientation::Up,
{
}

} // verus!

use vstd::prelude::*;
use vstd::string::*;

verus! {

/// One of the four cardinal moves on the board. `y` grows downwards.
#[derive(Clone, Copy, PartialEq, Eq, Debug, Structural)]
pub enum Input {
    UP,
    DOWN,
    LEFT,
    RIGHT,
}

/// A cell position. Signed and wider than the board's dimensions, so that a
/// position one step off the board can still be represented.
#[derive(Clone, Copy, PartialEq, Eq, Debug, Hash, Structural)]
pub struct Coord {
    pub x: isize,
    pub y: isize,
}

/// The direction that a key stands for: the letters w, a, s, d in either case.
pub open spec fn key_direction(c: char) -> Option<Input> {
    if c == 'w' || c == 'W' {
        Some(Input::UP)
    } else if c == 'a' || c == 'A' {
        Some(Input::LEFT)
    } else if c == 's' || c == 'S' {
        Some(Input::DOWN)
    } else if c == 'd' || c == 'D' {
        Some(Input::RIGHT)
    } else {
        None
    }
}

/// The direction named by a key symbol, which must be exactly one character.
pub open spec fn key_symbol_direction(s: Seq<char>) -> Option<Input> {
    if s.len() == 1 {
        key_direction(s[0])
    } else {
        None
    }
}

impl Input {
    /// The opposite direction.
    pub open spec fn spec_rev(self) -> Input {
        match self {
            Input::UP => Input::DOWN,
            Input::DOWN => Input::UP,
            Input::LEFT => Input::RIGHT,
            Input::RIGHT => Input::LEFT,
        }
    }

    /// Horizontal component of the unit step.
    pub open spec fn dx(self) -> int {
        match self {
            Input::LEFT => -1,
            Input::RIGHT => 1,
            _ => 0,
        }
    }

    /// Vertical component of the unit step.
    pub open spec fn dy(self) -> int {
        match self {
            Input::UP => -1,
            Input::DOWN => 1,
            _ => 0,
        }
    }

    /// Maps a key character to a direction; any other character gives `None`.
    pub fn from_char(c: char) -> (r: Option<Input>)
        ensures
            r == key_direction(c),
    {
        if c == 'w' || c == 'W' {
            Some(Input::UP)
        } else if c == 'a' || c == 'A' {
            Some(Input::LEFT)
        } else if c == 's' || c == 'S' {
            Some(Input::DOWN)
        } else if c == 'd' || c == 'D' {
            Some(Input::RIGHT)
        } else {
            None
        }
    }

    /// Maps a key symbol to a direction; an unrecognised symbol gives `None`.
    pub fn from_key(s: &str) -> (r: Option<Input>)
        ensures
            r == key_symbol_direction(s@),
    {
        if s.unicode_len() == 1 {
            Input::from_char(s.get_char(0))
        } else {
            None
        }
    }

    pub fn rev(&self) -> (r: Input)
        ensures
            r == self.spec_rev(),
    {
        match self {
            Input::DOWN => Input::UP,
            Input::UP => Input::DOWN,
            Input::LEFT => Input::RIGHT,
            Input::RIGHT => Input::LEFT,
        }
    }

    /// The unit step of this direction.
    pub fn offset(&self) -> (r: Coord)
        ensures
            r.x == self.dx(),
            r.y == self.dy(),
    {
        match self {
            Input::DOWN => Coord { x: 0, y: 1 },
            Input::UP => Coord { x: 0, y: -1 },
            Input::LEFT => Coord { x: -1, y: 0 },
            Input::RIGHT => Coord { x: 1, y: 0 },
        }
    }
}

impl Coord {
    /// The cell one step away in direction `d`.
    pub open spec fn spec_move_by(self, d: Input) -> Coord {
        Coord { x: (self.x + d.dx()) as isize, y: (self.y + d.dy()) as isize }
    }

    /// Componentwise sum.
    pub fn plus(&self, other: &Coord) -> (r: Coord)
        requires
            isize::MIN <= self.x + other.x <= isize::MAX,
            isize::MIN <= self.y + other.y <= isize::MAX,
        ensures
            r.x == self.x + other.x,
            r.y == self.y + other.y,
    {
        Coord { x: self.x + other.x, y: self.y + other.y }
    }

    /// The cell one step away in direction `input`.
    pub fn move_by(&self, input: &Input) -> (r: Coord)
        requires
            isize::MIN <= self.x + input.dx() <= isize::MAX,
            isize::MIN <= self.y + input.dy() <= isize::MAX,
        ensures
            r == self.spec_move_by(*input),
            r.x == self.x + input.dx(),
            r.y == self.y + input.dy(),
    {
        let offset = input.offset();
        self.plus(&offset)
    }
}

} // verus!

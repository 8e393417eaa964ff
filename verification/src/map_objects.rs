use vstd::prelude::*;
use vstd::string::*;

use crate::command::{Command, CompletePointOfInterest, PointOfInterest};
use crate::direction::{CardinalDirection, OrdinalDirection};
use crate::location::{AirLocation, GroundLocation};
use crate::text::{dec_digits, u16_to_string, u32_to_string};

verus! {

/// An airport square with its launch direction.
#[derive(Debug, Clone, Copy, PartialEq, Eq, Structural)]
pub struct Airport {
    pub location: GroundLocation,
    pub launch_direction: CardinalDirection,
    pub index: u16,
}

impl Airport {
    pub open spec fn display_spec(self, colorize: bool) -> Seq<char> {
        (if colorize {
            "\x1b[34m"@
        } else {
            Seq::<char>::empty()
        }) + self.launch_direction.arrow_spec() + dec_digits(self.index as int) + (if colorize {
            "\x1b[39m"@
        } else {
            Seq::<char>::empty()
        })
    }

    /// Short status text: launch arrow plus index.
    pub fn to_display_string(&self, colorize: bool) -> (r: String)
        ensures
            r@ == self.display_spec(colorize),
    {
        let mut s = String::new();
        if colorize {
            s.append("\x1b[34m");
        }
        s.append(self.launch_direction.arrow());
        let digits = u16_to_string(self.index);
        s.append(digits.as_str());
        if colorize {
            s.append("\x1b[39m");
        }
        proof {
            assert(s@ =~= self.display_spec(colorize));
        }
        s
    }
}

/// A numbered beacon square.
#[derive(Debug, Clone, Copy, PartialEq, Eq, Structural)]
pub struct Beacon {
    pub index: u16,
    pub location: GroundLocation,
}

impl Beacon {
    pub open spec fn display_spec(self, colorize: bool) -> Seq<char> {
        (if colorize {
            "\x1b[33m"@
        } else {
            Seq::<char>::empty()
        }) + "*"@ + dec_digits(self.index as int) + (if colorize {
            "\x1b[39m"@
        } else {
            Seq::<char>::empty()
        })
    }

    /// Short status text: a star plus the beacon number.
    pub fn to_display_string(&self, colorize: bool) -> (r: String)
        ensures
            r@ == self.display_spec(colorize),
    {
        let mut s = String::new();
        if colorize {
            s.append("\x1b[33m");
        }
        s.append("*");
        let digits = u16_to_string(self.index);
        s.append(digits.as_str());
        if colorize {
            s.append("\x1b[39m");
        }
        proof {
            assert(s@ =~= self.display_spec(colorize));
        }
        s
    }

    /// Whether the draft command's focused gate names this beacon.
    pub open spec fn targeted_by(self, command: Command) -> bool {
        match command.head.target_spec() {
            Some(p) => p.to_complete_spec() == Some(CompletePointOfInterest::Beacon(self.index)),
            None => false,
        }
    }
}

/// A map border crossing with its entry and exit positions.
#[derive(Debug, Clone, Copy, PartialEq, Eq, Structural)]
pub struct Exit {
    pub index: u16,
    pub entry_location: AirLocation,
    pub entry_direction: OrdinalDirection,
    pub exit_location: AirLocation,
    pub exit_direction: OrdinalDirection,
}

impl Exit {
    pub open spec fn display_spec(self, colorize: bool, show_char: bool) -> Seq<char> {
        if colorize {
            "\x1b[31m"@ + (if show_char {
                "E"@ + dec_digits(self.index as int)
            } else {
                dec_digits(self.index as int) + " "@
            }) + "\x1b[0m"@
        } else {
            if show_char {
                "E"@ + dec_digits(self.index as int)
            } else {
                dec_digits(self.index as int) + " "@
            }
        }
    }

    /// Short status text: the exit number, optionally prefixed.
    pub fn to_display_string(&self, colorize: bool, show_char: bool) -> (r: String)
        ensures
            r@ == self.display_spec(colorize, show_char),
    {
        let mut s = String::new();
        if colorize {
            s.append("\x1b[31m");
        }
        if show_char {
            s.append("E");
        }
        let digits = u16_to_string(self.index);
        s.append(digits.as_str());
        if !show_char {
            s.append(" ");
        }
        if colorize {
            s.append("\x1b[0m");
        }
        proof {
            assert(s@ =~= self.display_spec(colorize, show_char));
        }
        s
    }
}

/// Something that may occupy one square of the rendered grid.
pub trait GridRenderable: Sized {
    /// The square the object occupies, if it is on the grid at all.
    spec fn spec_location(&self) -> Option<GroundLocation>;

    /// The text its square shows, given the draft command (used for
    /// emphasis of addressed objects).
    spec fn spec_render(&self, command: Command) -> Seq<char>;

    fn location(&self) -> (r: Option<GroundLocation>)
        ensures
            r == self.spec_location(),
    ;

    fn render(&self, command: &Command) -> (r: String)
        ensures
            r@ == self.spec_render(*command),
    ;
}

/// Something that contributes one line to the side listing.
pub trait ListRenderable: Sized {
    /// The text of its listing line, given the draft command.
    spec fn spec_render(&self, command: Command) -> Seq<char>;

    fn render(&self, command: &Command) -> (r: String)
        ensures
            r@ == ListRenderable::spec_render(self, *command),
    ;
}

impl GridRenderable for GroundLocation {
    open spec fn spec_location(&self) -> Option<GroundLocation> {
        Some(*self)
    }

    open spec fn spec_render(&self, command: Command) -> Seq<char> {
        "+ "@
    }

    fn location(&self) -> (r: Option<GroundLocation>) {
        Some(*self)
    }

    fn render(&self, command: &Command) -> (r: String) {
        String::from_str("+ ")
    }
}

impl GridRenderable for Airport {
    open spec fn spec_location(&self) -> Option<GroundLocation> {
        Some(self.location)
    }

    open spec fn spec_render(&self, command: Command) -> Seq<char> {
        self.display_spec(true)
    }

    fn location(&self) -> (r: Option<GroundLocation>) {
        Some(self.location)
    }

    fn render(&self, command: &Command) -> (r: String) {
        self.to_display_string(true)
    }
}

impl GridRenderable for Beacon {
    open spec fn spec_location(&self) -> Option<GroundLocation> {
        Some(self.location)
    }

    open spec fn spec_render(&self, command: Command) -> Seq<char> {
        (if self.targeted_by(command) {
            "\x1b[4m"@
        } else {
            Seq::<char>::empty()
        }) + self.display_spec(true) + "\x1b[24m"@
    }

    fn location(&self) -> (r: Option<GroundLocation>) {
        Some(self.location)
    }

    fn render(&self, command: &Command) -> (r: String) {
        let mut s = String::new();
        let targeted = match command.head.target() {
            Some(p) => {
                match p.to_complete() {
                    Some(CompletePointOfInterest::Beacon(n)) => n == self.index,
                    None => false,
                }
            },
            None => false,
        };
        if targeted {
            s.append("\x1b[4m");
        }
        let body = self.to_display_string(true);
        s.append(body.as_str());
        s.append("\x1b[24m");
        proof {
            assert(s@ =~= GridRenderable::spec_render(self, *command));
        }
        s
    }
}

impl GridRenderable for Exit {
    open spec fn spec_location(&self) -> Option<GroundLocation> {
        Some(self.entry_location.ground_spec())
    }

    open spec fn spec_render(&self, command: Command) -> Seq<char> {
        self.display_spec(true, false)
    }

    fn location(&self) -> (r: Option<GroundLocation>) {
        Some(self.entry_location.ground())
    }

    fn render(&self, command: &Command) -> (r: String) {
        self.to_display_string(true, false)
    }
}

/// The tile the grid shows where nothing else stands.
pub open spec fn default_tile() -> Seq<char> {
    "\x1b[2m. \x1b[0m"@
}

/// Concatenated views of a range of tiles.
pub open spec fn concat_tiles(tiles: Seq<String>, from: int, to: int) -> Seq<char>
    decreases to - from,
{
    if from >= to {
        Seq::<char>::empty()
    } else {
        concat_tiles(tiles, from, to - 1) + tiles[to - 1]@
    }
}

/// The cursor-control sequence ending each rendered row.
pub open spec fn row_sep(width: u16) -> Seq<char> {
    "\x1b["@ + dec_digits(2 * width) + "D\x1b[B"@
}

/// The first `rows` rows of the rendered grid.
pub open spec fn grid_text(tiles: Seq<String>, width: int, sep: Seq<char>, rows: int) -> Seq<char>
    decreases rows,
{
    if rows <= 0 {
        Seq::<char>::empty()
    } else {
        grid_text(tiles, width, sep, rows - 1) + concat_tiles(
            tiles,
            (rows - 1) * width,
            rows * width,
        ) + sep
    }
}

/// A screen's worth of tiles being assembled for one frame.
pub struct RenderGrid {
    pub width: u16,
    pub height: u16,
    pub command: Command,
    pub tiles: Vec<String>,
}

impl RenderGrid {
    pub open spec fn wf(self) -> bool {
        self.tiles@.len() == self.width as int * self.height as int
    }

    pub open spec fn spec_tiles(self) -> Seq<String> {
        self.tiles@
    }

    pub open spec fn spec_command(self) -> Command {
        self.command
    }

    /// A grid of empty tiles.
    pub fn new(width: u16, height: u16, command: &Command) -> (r: RenderGrid)
        requires
            width as int * height as int <= usize::MAX as int,
        ensures
            r.wf(),
            r.width == width,
            r.height == height,
            r.spec_command() == *command,
            forall|k: int|
                0 <= k < r.spec_tiles().len() ==> #[trigger] r.spec_tiles()[k]@ == default_tile(),
    {
        let total: usize = (width as usize) * (height as usize);
        let mut tiles: Vec<String> = Vec::new();
        let mut i: usize = 0;
        while i < total
            invariant
                i <= total,
                tiles@.len() == i,
                forall|k: int| 0 <= k < i ==> #[trigger] tiles@[k]@ == default_tile(),
            decreases total - i,
        {
            tiles.push(String::from_str("\x1b[2m. \x1b[0m"));
            i += 1;
        }
        RenderGrid { width, height, command: command.duplicate(), tiles }
    }

    /// Index of a square in the tile vector.
    pub open spec fn index_spec(self, x: u16, y: u16) -> int {
        y as int * self.width as int + x as int
    }

    fn index_of(&self, x: u16, y: u16) -> (r: usize)
        requires
            self.wf(),
            x < self.width,
            y < self.height,
        ensures
            r == self.index_spec(x, y),
            r < self.spec_tiles().len(),
    {
        proof {
            let w = self.width as int;
            let h = self.height as int;
            let xi = x as int;
            let yi = y as int;
            assert(yi * w + xi < w * h) by (nonlinear_arith)
                requires
                    0 <= xi < w,
                    0 <= yi < h,
            ;
        }
        let n: usize = self.tiles.len();
        (y as usize) * (self.width as usize) + (x as usize)
    }

    /// The text currently on a square.
    pub fn get(&self, x: u16, y: u16) -> (r: &str)
        requires
            self.wf(),
            x < self.width,
            y < self.height,
        ensures
            r@ == self.spec_tiles()[self.index_spec(x, y)]@,
    {
        let i = self.index_of(x, y);
        self.tiles[i].as_str()
    }

    /// Draws an object onto its square, replacing what was there.
    pub fn add<T: GridRenderable>(&mut self, obj: &T)
        requires
            old(self).wf(),
            match obj.spec_location() {
                Some(l) => l.0 < old(self).width && l.1 < old(self).height,
                None => true,
            },
        ensures
            final(self).wf(),
            final(self).width == old(self).width,
            final(self).height == old(self).height,
            final(self).spec_command() == old(self).spec_command(),
            match obj.spec_location() {
                Some(l) => {
                    &&& final(self).spec_tiles().len() == old(self).spec_tiles().len()
                    &&& final(self).spec_tiles()[old(self).index_spec(l.0, l.1)]@
                        == obj.spec_render(old(self).spec_command())
                    &&& forall|k: int|
                        0 <= k < old(self).spec_tiles().len() && k != old(self).index_spec(
                            l.0,
                            l.1,
                        ) ==> #[trigger] final(self).spec_tiles()[k] == old(self).spec_tiles()[k]
                },
                None => *final(self) == *old(self),
            },
    {
        match obj.location() {
            Some(l) => {
                let result = obj.render(&self.command);
                let GroundLocation(x, y) = l;
                let loc = self.index_of(x, y);
                self.tiles.set(loc, result);
            },
            None => {},
        }
    }

    /// The whole grid as one string, row by row, each row followed by
    /// the cursor-control sequence that moves to the next row.
    pub fn render(&self) -> (r: String)
        requires
            self.wf(),
        ensures
            r@ == grid_text(
                self.spec_tiles(),
                self.width as int,
                row_sep(self.width),
                self.height as int,
            ),
    {
        let mut sep = String::from_str("\x1b[");
        let digits = u32_to_string(2 * (self.width as u32));
        sep.append(digits.as_str());
        sep.append("D\x1b[B");
        proof {
            assert(sep@ =~= row_sep(self.width));
        }
        let mut out = String::new();
        let mut y: u16 = 0;
        while y < self.height
            invariant
                self.wf(),
                y <= self.height,
                sep@ == row_sep(self.width),
                out@ == grid_text(self.spec_tiles(), self.width as int, sep@, y as int),
            decreases self.height - y,
        {
            let mut x: u16 = 0;
            while x < self.width
                invariant
                    self.wf(),
                    y < self.height,
                    x <= self.width,
                    sep@ == row_sep(self.width),
                    out@ == grid_text(self.spec_tiles(), self.width as int, sep@, y as int)
                        + concat_tiles(
                        self.spec_tiles(),
                        y as int * self.width as int,
                        y as int * self.width as int + x as int,
                    ),
                decreases self.width - x,
            {
                let t = self.get(x, y);
                out.append(t);
                x += 1;
            }
            out.append(sep.as_str());
            proof {
                assert(y as int * self.width as int + self.width as int == (y as int + 1)
                    * self.width as int) by (nonlinear_arith);
                assert(out@ =~= grid_text(
                    self.spec_tiles(),
                    self.width as int,
                    sep@,
                    y as int + 1,
                ));
            }
            y += 1;
        }
        out
    }
}

} // verus!

//! Selectors a driver parses from its configuration: which automaton to
//! simulate and which front end draws it.

use vstd::prelude::*;
use vstd::string::StrSliceExecFns;
use vstd::string::StringExecFns;

verus! {

/// The automaton to simulate.
#[derive(Clone, Copy, Debug, PartialEq, Eq, Structural)]
pub enum Worlds {
    GameOfLife,
    BriansBrain,
}

/// The front end that draws the world.
#[derive(Clone, Copy, Debug, PartialEq, Eq, Structural)]
pub enum FrontEnds {
    Sdl2,
    Curisve,
}

/// Whether two string slices hold the same characters.
fn str_eq(a: &str, b: &str) -> (r: bool)
    ensures
        r == (a@ == b@),
{
    let la = a.unicode_len();
    let lb = b.unicode_len();
    if la != lb {
        return false;
    }
    let mut i: usize = 0;
    while i < la
        invariant
            la == a@.len(),
            la == b@.len(),
            i <= la,
            forall|j: int| 0 <= j < i ==> a@[j] == b@[j],
        decreases la - i,
    {
        if a.get_char(i) != b.get_char(i) {
            return false;
        }
        i += 1;
    }
    proof {
        assert(a@ =~= b@);
    }
    true
}

/// The ASCII-lowercase counterpart of one character.
pub open spec fn spec_lower_char(c: char) -> char {
    match c {
        'A' => 'a',
        'B' => 'b',
        'C' => 'c',
        'D' => 'd',
        'E' => 'e',
        'F' => 'f',
        'G' => 'g',
        'H' => 'h',
        'I' => 'i',
        'J' => 'j',
        'K' => 'k',
        'L' => 'l',
        'M' => 'm',
        'N' => 'n',
        'O' => 'o',
        'P' => 'p',
        'Q' => 'q',
        'R' => 'r',
        'S' => 's',
        'T' => 't',
        'U' => 'u',
        'V' => 'v',
        'W' => 'w',
        'X' => 'x',
        'Y' => 'y',
        'Z' => 'z',
        _ => c,
    }
}

/// A string's characters, each taken to ASCII lowercase.
pub open spec fn spec_lower(s: Seq<char>) -> Seq<char> {
    s.map_values(|c: char| spec_lower_char(c))
}

/// The ASCII-lowercase counterpart of one character.
fn lower_char(c: char) -> (r: char)
    ensures
        r == spec_lower_char(c),
{
    match c {
        'A' => 'a',
        'B' => 'b',
        'C' => 'c',
        'D' => 'd',
        'E' => 'e',
        'F' => 'f',
        'G' => 'g',
        'H' => 'h',
        'I' => 'i',
        'J' => 'j',
        'K' => 'k',
        'L' => 'l',
        'M' => 'm',
        'N' => 'n',
        'O' => 'o',
        'P' => 'p',
        'Q' => 'q',
        'R' => 'r',
        'S' => 's',
        'T' => 't',
        'U' => 'u',
        'V' => 'v',
        'W' => 'w',
        'X' => 'x',
        'Y' => 'y',
        'Z' => 'z',
        _ => c,
    }
}

/// Whether `a`, taken to ASCII lowercase, holds the same characters as `b`.
fn str_eq_lower(a: &str, b: &str) -> (r: bool)
    ensures
        r == (spec_lower(a@) == b@),
{
    let la = a.unicode_len();
    let lb = b.unicode_len();
    if la != lb {
        return false;
    }
    let mut i: usize = 0;
    while i < la
        invariant
            la == a@.len(),
            la == b@.len(),
            i <= la,
            forall|j: int| 0 <= j < i ==> spec_lower_char(a@[j]) == b@[j],
        decreases la - i,
    {
        if lower_char(a.get_char(i)) != b.get_char(i) {
            return false;
        }
        i += 1;
    }
    proof {
        assert(spec_lower(a@) =~= b@);
    }
    true
}

impl Worlds {
    /// This selector's display name.
    pub fn name(&self) -> (r: &'static str)
        ensures
            *self == Worlds::GameOfLife ==> r@ == "GameOfLife"@,
            *self == Worlds::BriansBrain ==> r@ == "BriansBrain"@,
    {
        match *self {
            Worlds::GameOfLife => "GameOfLife",
            Worlds::BriansBrain => "BriansBrain",
        }
    }

    /// Whether `s` names the Game-of-Life selector.
    pub open spec fn spec_names_game_of_life(s: Seq<char>) -> bool {
        s == "gof"@ || s == "Game of Life"@ || s == "GameOfLife"@
    }

    /// Whether `s` names the Brian's-Brain selector.
    pub open spec fn spec_names_brians_brain(s: Seq<char>) -> bool {
        s == "bb"@ || s == "Brian's Brian "@ || s == "BriansBrian"@
    }

    /// Parse a selector; exactly the listed spellings are accepted, and
    /// anything else is answered with the error `"unknown"`.
    pub fn from_str(s: &str) -> (r: Result<Worlds, String>)
        ensures
            (r == Ok::<Worlds, String>(Worlds::GameOfLife)) == Self::spec_names_game_of_life(s@),
            (r == Ok::<Worlds, String>(Worlds::BriansBrain)) == Self::spec_names_brians_brain(s@),
            r is Err == (!Self::spec_names_game_of_life(s@) && !Self::spec_names_brians_brain(
                s@,
            )),
            r is Err ==> r->Err_0@ == "unknown"@,
    {
        proof {
            reveal_strlit("gof");
            reveal_strlit("Game of Life");
            reveal_strlit("GameOfLife");
            reveal_strlit("bb");
            reveal_strlit("Brian's Brian ");
            reveal_strlit("BriansBrian");
            assert("gof"@.len() == 3);
            assert("Game of Life"@.len() == 12);
            assert("GameOfLife"@.len() == 10);
            assert("bb"@.len() == 2);
            assert("Brian's Brian "@.len() == 14);
            assert("BriansBrian"@.len() == 11);
        }
        if str_eq(s, "gof") || str_eq(s, "Game of Life") || str_eq(s, "GameOfLife") {
            Ok(Worlds::GameOfLife)
        } else if str_eq(s, "bb") || str_eq(s, "Brian's Brian ") || str_eq(s, "BriansBrian") {
            Ok(Worlds::BriansBrain)
        } else {
            Err(String::from_str("unknown"))
        }
    }
}

impl FrontEnds {
    /// This selector's display name.
    pub fn name(&self) -> (r: &'static str)
        ensures
            *self == FrontEnds::Sdl2 ==> r@ == "Sdl2"@,
            *self == FrontEnds::Curisve ==> r@ == "Curisve"@,
    {
        match *self {
            FrontEnds::Sdl2 => "Sdl2",
            FrontEnds::Curisve => "Curisve",
        }
    }

    /// Whether `s`, taken to ASCII lowercase, names the SDL front end.
    pub open spec fn spec_names_sdl2(s: Seq<char>) -> bool {
        spec_lower(s) == "gui"@ || spec_lower(s) == "sdl"@ || spec_lower(s) == "sdl2"@
    }

    /// Whether `s`, taken to ASCII lowercase, names the terminal front end.
    pub open spec fn spec_names_cursive(s: Seq<char>) -> bool {
        spec_lower(s) == "terminal"@ || spec_lower(s) == "cursive"@
    }

    /// Parse a selector, ignoring ASCII case; anything but the listed
    /// names is answered with the error `"unknown"`.
    pub fn from_str(s: &str) -> (r: Result<FrontEnds, String>)
        ensures
            (r == Ok::<FrontEnds, String>(FrontEnds::Sdl2)) == Self::spec_names_sdl2(s@),
            (r == Ok::<FrontEnds, String>(FrontEnds::Curisve)) == Self::spec_names_cursive(s@),
            r is Err == (!Self::spec_names_sdl2(s@) && !Self::spec_names_cursive(s@)),
            r is Err ==> r->Err_0@ == "unknown"@,
    {
        proof {
            reveal_strlit("gui");
            reveal_strlit("sdl");
            reveal_strlit("sdl2");
            reveal_strlit("terminal");
            reveal_strlit("cursive");
            assert("gui"@.len() == 3);
            assert("sdl"@.len() == 3);
            assert("sdl2"@.len() == 4);
            assert("terminal"@.len() == 8);
            assert("cursive"@.len() == 7);
        }
        if str_eq_lower(s, "gui") || str_eq_lower(s, "sdl") || str_eq_lower(s, "sdl2") {
            Ok(FrontEnds::Sdl2)
        } else if str_eq_lower(s, "terminal") || str_eq_lower(s, "cursive") {
            Ok(FrontEnds::Curisve)
        } else {
            Err(String::from_str("unknown"))
        }
    }
}

} // verus!

use vstd::prelude::*;

use vstd::string::{StrSliceExecFns, StringExecFns};

use crate::text::{chars_of, str_eq};

verus! {

/// Errors found while reading a level description.
#[derive(Debug)]
pub enum YamlParsingError {
    UnknownBranch(String),
    MissingChar,
    MapTooWide,
    MapTooLong,
}

/// The one-character key the game uses for a branch name.
pub open spec fn branch_key_of(name: Seq<char>) -> Option<Seq<char>> {
    if name == "D"@ {
        Some("D"@)
    } else if name == "Dungeon"@ {
        Some("D"@)
    } else if name == "Temple"@ {
        Some("T"@)
    } else if name == "Lair"@ {
        Some("L"@)
    } else if name == "Swamp"@ {
        Some("S"@)
    } else if name == "Shoals"@ {
        Some("A"@)
    } else if name == "Snake"@ {
        Some("P"@)
    } else if name == "Spider"@ {
        Some("N"@)
    } else if name == "Slime"@ {
        Some("M"@)
    } else if name == "Orc"@ {
        Some("O"@)
    } else if name == "Elf"@ {
        Some("E"@)
    } else if name == "Vaults"@ {
        Some("V"@)
    } else if name == "Crypt"@ {
        Some("C"@)
    } else if name == "Tomb"@ {
        Some("W"@)
    } else if name == "Depths"@ {
        Some("U"@)
    } else if name == "Hell"@ {
        Some("H"@)
    } else if name == "Dis"@ {
        Some("I"@)
    } else if name == "Geh"@ {
        Some("G"@)
    } else if name == "Coc"@ {
        Some("X"@)
    } else if name == "Tar"@ {
        Some("Y"@)
    } else if name == "Zot"@ {
        Some("Z"@)
    } else if name == "Abyss"@ {
        Some("J"@)
    } else if name == "Pan"@ {
        Some("R"@)
    } else if name == "Zig"@ {
        Some("Q"@)
    } else if name == "Bazaar"@ {
        Some("1"@)
    } else if name == "Trove"@ {
        Some("2"@)
    } else if name == "Sewer"@ {
        Some("3"@)
    } else if name == "Ossuary"@ {
        Some("4"@)
    } else if name == "Bailey"@ {
        Some("5"@)
    } else if name == "IceCv"@ {
        Some("6"@)
    } else if name == "Volcano"@ {
        Some("7"@)
    } else if name == "WizLab"@ {
        Some("8"@)
    } else if name == "Desolation"@ {
        Some("9"@)
    } else if name == "Gauntlet"@ {
        Some("!"@)
    } else if name == "Arena"@ {
        Some("\""@)
    } else {
        None
    }
}

fn branch_key_lookup(name: &str) -> (r: Option<&'static str>)
    ensures
        match r {
            Some(k) => branch_key_of(name@) == Some(k@),
            None => branch_key_of(name@) is None,
        },
{
    if str_eq(name, "D") {
        Some("D")
    } else if str_eq(name, "Dungeon") {
        Some("D")
    } else if str_eq(name, "Temple") {
        Some("T")
    } else if str_eq(name, "Lair") {
        Some("L")
    } else if str_eq(name, "Swamp") {
        Some("S")
    } else if str_eq(name, "Shoals") {
        Some("A")
    } else if str_eq(name, "Snake") {
        Some("P")
    } else if str_eq(name, "Spider") {
        Some("N")
    } else if str_eq(name, "Slime") {
        Some("M")
    } else if str_eq(name, "Orc") {
        Some("O")
    } else if str_eq(name, "Elf") {
        Some("E")
    } else if str_eq(name, "Vaults") {
        Some("V")
    } else if str_eq(name, "Crypt") {
        Some("C")
    } else if str_eq(name, "Tomb") {
        Some("W")
    } else if str_eq(name, "Depths") {
        Some("U")
    } else if str_eq(name, "Hell") {
        Some("H")
    } else if str_eq(name, "Dis") {
        Some("I")
    } else if str_eq(name, "Geh") {
        Some("G")
    } else if str_eq(name, "Coc") {
        Some("X")
    } else if str_eq(name, "Tar") {
        Some("Y")
    } else if str_eq(name, "Zot") {
        Some("Z")
    } else if str_eq(name, "Abyss") {
        Some("J")
    } else if str_eq(name, "Pan") {
        Some("R")
    } else if str_eq(name, "Zig") {
        Some("Q")
    } else if str_eq(name, "Bazaar") {
        Some("1")
    } else if str_eq(name, "Trove") {
        Some("2")
    } else if str_eq(name, "Sewer") {
        Some("3")
    } else if str_eq(name, "Ossuary") {
        Some("4")
    } else if str_eq(name, "Bailey") {
        Some("5")
    } else if str_eq(name, "IceCv") {
        Some("6")
    } else if str_eq(name, "Volcano") {
        Some("7")
    } else if str_eq(name, "WizLab") {
        Some("8")
    } else if str_eq(name, "Desolation") {
        Some("9")
    } else if str_eq(name, "Gauntlet") {
        Some("!")
    } else if str_eq(name, "Arena") {
        Some("\"")
    } else {
        None
    }
}

/// The first position of `c` in `s`.
pub open spec fn first_char_at(s: Seq<char>, c: char, i: int) -> Option<int>
    decreases s.len() - i,
{
    if i < 0 || i >= s.len() {
        None
    } else if s[i] == c {
        Some(i)
    } else {
        first_char_at(s, c, i + 1)
    }
}

/// The branch name and level of `branch` ("Name:level", the level being "0"
/// when there is no colon).
pub open spec fn branch_parts(branch: Seq<char>) -> (Seq<char>, Seq<char>) {
    match first_char_at(branch, ':', 0) {
        Some(i) => (branch.subrange(0, i), branch.subrange(i + 1, branch.len() as int)),
        None => (branch, "0"@),
    }
}

/// Splits "Name:level" into the branch name, the branch's key and the level.
pub fn branch_keys(branch: &str) -> (r: Result<(String, String, String), YamlParsingError>)
    ensures
        match branch_key_of(branch_parts(branch@).0) {
            Some(key) => r matches Ok(t) && t.0@ == branch_parts(branch@).0 && t.1@ == key && t.2@
                == branch_parts(branch@).1,
            None => r matches Err(YamlParsingError::UnknownBranch(n)) && n@ == branch_parts(branch@).0,
        },
{
    let cs = chars_of(branch);
    let mut i: usize = 0;
    while i < cs.len() && cs[i] != ':'
        invariant
            cs@ == branch@,
            i <= cs.len(),
            first_char_at(branch@, ':', 0) == first_char_at(branch@, ':', i as int),
        decreases cs.len() - i,
    {
        i += 1;
    }
    let (name, level): (&str, &str) = if i < cs.len() {
        (branch.substring_char(0, i), branch.substring_char(i + 1, cs.len()))
    } else {
        (branch, "0")
    };
    match branch_key_lookup(name) {
        Some(key) => Ok((String::from_str(name), String::from_str(key), String::from_str(level))),
        None => Err(YamlParsingError::UnknownBranch(String::from_str(name))),
    }
}

}

use vstd::prelude::*;

verus! {

/// `needle` occurs in `hay` starting at position `i`.
pub open spec fn occurs_at(hay: Seq<char>, needle: Seq<char>, i: int) -> bool {
    0 <= i && i + needle.len() <= hay.len() && hay.subrange(i, i + needle.len()) == needle
}

/// `needle` occurs somewhere in `hay`.
pub open spec fn is_substring(needle: Seq<char>, hay: Seq<char>) -> bool {
    exists|i: int| occurs_at(hay, needle, i)
}

/// The characters of a string, in order.
pub fn chars_of(s: &str) -> (r: Vec<char>)
    ensures
        r@ == s@,
{
    broadcast use vstd::string::group_string_axioms;
    let mut r: Vec<char> = Vec::new();
    for c in it: s.chars()
        invariant
            it.seq() == s@,
            r@ == it.seq().take(it.index() as int),
    {
        r.push(c);
    }
    r
}

/// Whether two strings hold the same characters.
pub fn str_eq(a: &str, b: &str) -> (r: bool)
    ensures
        r == (a@ == b@),
{
    let x = chars_of(a);
    let y = chars_of(b);
    if x.len() != y.len() {
        return false;
    }
    let mut i: usize = 0;
    while i < x.len()
        invariant
            x@ == a@,
            y@ == b@,
            x.len() == y.len(),
            i <= x.len(),
            forall|k: int| 0 <= k < i ==> x@[k] == y@[k],
        decreases x.len() - i,
    {
        if x[i] != y[i] {
            return false;
        }
        i += 1;
    }
    assert(x@ =~= y@);
    true
}

/// Whether `needle` occurs in `hay` at position `i`.
fn occurs_at_exec(hay: &Vec<char>, needle: &Vec<char>, i: usize) -> (r: bool)
    requires
        i + needle.len() <= hay.len(),
    ensures
        r == occurs_at(hay@, needle@, i as int),
{
    let mut k: usize = 0;
    while k < needle.len()
        invariant
            i + needle.len() <= hay.len(),
            k <= needle.len(),
            forall|j: int| 0 <= j < k ==> hay@[i + j] == needle@[j],
        decreases needle.len() - k,
    {
        if hay[i + k] != needle[k] {
            assert(hay@.subrange(i as int, i + needle.len())[k as int] != needle@[k as int]);
            return false;
        }
        k += 1;
    }
    assert(hay@.subrange(i as int, i + needle.len()) =~= needle@);
    true
}

/// Whether `needle` occurs somewhere in `hay`.
pub fn seq_contains(hay: &Vec<char>, needle: &Vec<char>) -> (r: bool)
    ensures
        r == is_substring(needle@, hay@),
{
    if needle.len() > hay.len() {
        assert forall|i: int| !occurs_at(hay@, needle@, i) by {}
        return false;
    }
    let last = hay.len() - needle.len();
    let mut i: usize = 0;
    loop
        invariant
            last == hay.len() - needle.len(),
            needle.len() <= hay.len(),
            i <= last,
            forall|j: int| 0 <= j < i ==> !occurs_at(hay@, needle@, j),
        decreases last - i,
    {
        if occurs_at_exec(hay, needle, i) {
            return true;
        }
        if i == last {
            assert forall|j: int| !occurs_at(hay@, needle@, j) by {
                if 0 <= j && j <= i {
                }
            }
            return false;
        }
        i += 1;
    }
}

/// Whether `needle` occurs somewhere in `hay`.
pub fn str_contains(hay: &str, needle: &str) -> (r: bool)
    ensures
        r == is_substring(needle@, hay@),
{
    let h = chars_of(hay);
    let n = chars_of(needle);
    seq_contains(&h, &n)
}


/// Unicode's White_Space characters, which `str::trim` removes.
pub open spec fn is_ws(c: char) -> bool {
    ||| c == '\t' || c == '\n' || c == '\u{B}' || c == '\u{C}' || c == '\r' || c == ' '
    ||| c == '\u{85}' || c == '\u{A0}' || c == '\u{1680}'
    ||| ('\u{2000}' <= c && c <= '\u{200A}')
    ||| c == '\u{2028}' || c == '\u{2029}' || c == '\u{202F}' || c == '\u{205F}' || c == '\u{3000}'
}

/// Whether `c` is a White_Space character.
pub fn is_ws_exec(c: char) -> (r: bool)
    ensures
        r == is_ws(c),
{
    c == '\t' || c == '\n' || c == '\u{B}' || c == '\u{C}' || c == '\r' || c == ' ' || c == '\u{85}'
        || c == '\u{A0}' || c == '\u{1680}' || ('\u{2000}' <= c && c <= '\u{200A}') || c == '\u{2028}'
        || c == '\u{2029}' || c == '\u{202F}' || c == '\u{205F}' || c == '\u{3000}'
}

/// Where `s` starts once leading white space is dropped.
pub open spec fn trim_start_at(s: Seq<char>, i: int) -> int
    decreases s.len() - i,
{
    if i < 0 || i >= s.len() || !is_ws(s[i]) {
        i
    } else {
        trim_start_at(s, i + 1)
    }
}

/// Where `s` ends, up to position `j`, once trailing white space is dropped.
pub open spec fn trim_end_at(s: Seq<char>, lo: int, j: int) -> int
    decreases j - lo,
{
    if j <= lo || !is_ws(s[j - 1]) {
        j
    } else {
        trim_end_at(s, lo, j - 1)
    }
}

/// `s` without leading and trailing white space.
pub open spec fn trimmed(s: Seq<char>) -> Seq<char> {
    let a = trim_start_at(s, 0);
    s.subrange(a, trim_end_at(s, a, s.len() as int))
}

/// The first position where `needle` occurs in `hay`.
pub open spec fn first_occurrence(hay: Seq<char>, needle: Seq<char>, i: int) -> Option<int>
    decreases hay.len() + 1 - i,
{
    if i < 0 || i + needle.len() > hay.len() {
        None
    } else if occurs_at(hay, needle, i) {
        Some(i)
    } else {
        first_occurrence(hay, needle, i + 1)
    }
}

/// The first position, from `i` on, of a character of `stops` in `s`.
pub open spec fn first_stop(s: Seq<char>, stops: Seq<char>, i: int) -> Option<int>
    decreases s.len() - i,
{
    if i < 0 || i >= s.len() {
        None
    } else if stops.contains(s[i]) {
        Some(i)
    } else {
        first_stop(s, stops, i + 1)
    }
}

/// The parameter that follows the first `to_find` in `text` and runs up to
/// the first stop character after it (the end of the text counts as a
/// newline), without surrounding white space.
pub open spec fn param_of(text: Seq<char>, to_find: Seq<char>, stops: Seq<char>) -> Option<Seq<char>> {
    let s = text.push('\n');
    match first_occurrence(s, to_find, 0) {
        None => None,
        Some(at) => {
            let from = at + to_find.len();
            match first_stop(s, stops, from) {
                None => None,
                Some(to) => Some(trimmed(s.subrange(from, to))),
            }
        },
    }
}

/// The first position where `needle` occurs in `hay`.
fn find_exec(hay: &Vec<char>, needle: &Vec<char>) -> (r: Option<usize>)
    ensures
        match r {
            Some(i) => first_occurrence(hay@, needle@, 0) == Some(i as int),
            None => first_occurrence(hay@, needle@, 0) is None,
        },
        r matches Some(i) ==> i + needle.len() <= hay.len(),
{
    if needle.len() > hay.len() {
        return None;
    }
    let last = hay.len() - needle.len();
    let mut i: usize = 0;
    loop
        invariant
            last == hay.len() - needle.len(),
            needle.len() <= hay.len(),
            i <= last,
            first_occurrence(hay@, needle@, 0) == first_occurrence(hay@, needle@, i as int),
        decreases last - i,
    {
        if occurs_at_exec(hay, needle, i) {
            return Some(i);
        }
        if i == last {
            assert(first_occurrence(hay@, needle@, (i + 1) as int) is None);
            return None;
        }
        i += 1;
    }
}

/// The first position, from `from` on, of a character of `stops` in `s`.
fn first_stop_exec(s: &Vec<char>, stops: &Vec<char>, from: usize) -> (r: Option<usize>)
    ensures
        match r {
            Some(i) => first_stop(s@, stops@, from as int) == Some(i as int),
            None => first_stop(s@, stops@, from as int) is None,
        },
        r matches Some(i) ==> from <= i < s.len(),
{
    let mut to = from;
    while to < s.len()
        invariant
            from <= to,
            first_stop(s@, stops@, from as int) == first_stop(s@, stops@, to as int),
        decreases s.len() - to,
    {
        let c = s[to];
        let mut k: usize = 0;
        while k < stops.len()
            invariant
                k <= stops.len(),
                from <= to < s.len(),
                c == s@[to as int],
                first_stop(s@, stops@, from as int) == first_stop(s@, stops@, to as int),
                forall|j: int| 0 <= j < k ==> stops@[j] != c,
            decreases stops.len() - k,
        {
            if stops[k] == c {
                assert(stops@[k as int] == s@[to as int]);
                assert(stops@.contains(s@[to as int]));
                return Some(to);
            }
            k += 1;
        }
        assert(!stops@.contains(s@[to as int]));
        to += 1;
    }
    None
}

/// Returns the parameter that follows `to_find` in `text`, up to the first
/// of the `extract_until` characters (the end of the text counts as a
/// newline), trimmed; `None` when `to_find` does not occur or no stop follows.
pub fn extract_param(text: &str, to_find: &str, extract_until: &Vec<char>) -> (r: Option<String>)
    ensures
        match r {
            Some(s) => param_of(text@, to_find@, extract_until@) == Some(s@),
            None => param_of(text@, to_find@, extract_until@) is None,
        },
{
    let mut s = chars_of(text);
    s.push('\n');
    let ghost sv = text@.push('\n');
    assert(s@ == sv);
    let needle = chars_of(to_find);
    let at = match find_exec(&s, &needle) {
        Some(at) => at,
        None => {
            return None;
        },
    };
    let from = at + needle.len();
    let to = match first_stop_exec(&s, extract_until, from) {
        Some(to) => to,
        None => {
            return None;
        },
    };
    let mut a = from;
    while a < to && is_ws_exec(s[a])
        invariant
            s@ == sv,
            from <= a <= to,
            to < s.len(),
            trim_start_at(sv.subrange(from as int, to as int), 0) == trim_start_at(
                sv.subrange(from as int, to as int),
                a - from,
            ),
        decreases to - a,
    {
        a += 1;
    }
    let mut b = to;
    while b > a && is_ws_exec(s[b - 1])
        invariant
            s@ == sv,
            from <= a <= b <= to,
            to < s.len(),
            trim_start_at(sv.subrange(from as int, to as int), 0) == a - from,
            trim_end_at(sv.subrange(from as int, to as int), a - from, to - from) == trim_end_at(
                sv.subrange(from as int, to as int),
                a - from,
                b - from,
            ),
        decreases b - a,
    {
        b -= 1;
    }
    assert(to <= text@.len());
    let piece = text.substring_char(a, b);
    assert(piece@ =~= trimmed(sv.subrange(from as int, to as int)));
    Some(piece.to_owned())
}


/// The inventory index of a letter: a to z give 0 to 25, A to Z give 26 to 51.
pub open spec fn letter_index(c: char) -> Option<int> {
    if 'a' <= c <= 'z' {
        Some(c as int - 'a' as int)
    } else if 'A' <= c <= 'Z' {
        Some(c as int - 'A' as int + 26)
    } else {
        None
    }
}

/// The inventory index of a one-letter string; the letter must be a to z or A to Z.
pub fn char_to_index(letter: &str) -> (r: usize)
    requires
        letter@.len() == 1,
        letter_index(letter@[0]) is Some,
    ensures
        r as int == letter_index(letter@[0])->0,
{
    let cs = chars_of(letter);
    let c = cs[0];
    if 'a' <= c && c <= 'z' {
        (c as u32 - 'a' as u32) as usize
    } else {
        (c as u32 - 'A' as u32 + 26) as usize
    }
}

/// The letter of an inventory index: 0 to 25 give a to z, 26 to 51 give A to Z.
pub open spec fn letter_at(key: int) -> char {
    if key < 26 {
        ('a' as int + key) as char
    } else {
        ('A' as int + key - 26) as char
    }
}

/// The one-letter string of an inventory index, which must be below 52.
pub fn _index_to_char(key: usize) -> (r: &'static str)
    requires
        key < 52,
    ensures
        r@ == seq![letter_at(key as int)],
{
    if key == 0 {
        proof {
            reveal_strlit("a");
        }
        "a"
    } else if key == 1 {
        proof {
            reveal_strlit("b");
        }
        "b"
    } else if key == 2 {
        proof {
            reveal_strlit("c");
        }
        "c"
    } else if key == 3 {
        proof {
            reveal_strlit("d");
        }
        "d"
    } else if key == 4 {
        proof {
            reveal_strlit("e");
        }
        "e"
    } else if key == 5 {
        proof {
            reveal_strlit("f");
        }
        "f"
    } else if key == 6 {
        proof {
            reveal_strlit("g");
        }
        "g"
    } else if key == 7 {
        proof {
            reveal_strlit("h");
        }
        "h"
    } else if key == 8 {
        proof {
            reveal_strlit("i");
        }
        "i"
    } else if key == 9 {
        proof {
            reveal_strlit("j");
        }
        "j"
    } else if key == 10 {
        proof {
            reveal_strlit("k");
        }
        "k"
    } else if key == 11 {
        proof {
            reveal_strlit("l");
        }
        "l"
    } else if key == 12 {
        proof {
            reveal_strlit("m");
        }
        "m"
    } else if key == 13 {
        proof {
            reveal_strlit("n");
        }
        "n"
    } else if key == 14 {
        proof {
            reveal_strlit("o");
        }
        "o"
    } else if key == 15 {
        proof {
            reveal_strlit("p");
        }
        "p"
    } else if key == 16 {
        proof {
            reveal_strlit("q");
        }
        "q"
    } else if key == 17 {
        proof {
            reveal_strlit("r");
        }
        "r"
    } else if key == 18 {
        proof {
            reveal_strlit("s");
        }
        "s"
    } else if key == 19 {
        proof {
            reveal_strlit("t");
        }
        "t"
    } else if key == 20 {
        proof {
            reveal_strlit("u");
        }
        "u"
    } else if key == 21 {
        proof {
            reveal_strlit("v");
        }
        "v"
    } else if key == 22 {
        proof {
            reveal_strlit("w");
        }
        "w"
    } else if key == 23 {
        proof {
            reveal_strlit("x");
        }
        "x"
    } else if key == 24 {
        proof {
            reveal_strlit("y");
        }
        "y"
    } else if key == 25 {
        proof {
            reveal_strlit("z");
        }
        "z"
    } else if key == 26 {
        proof {
            reveal_strlit("A");
        }
        "A"
    } else if key == 27 {
        proof {
            reveal_strlit("B");
        }
        "B"
    } else if key == 28 {
        proof {
            reveal_strlit("C");
        }
        "C"
    } else if key == 29 {
        proof {
            reveal_strlit("D");
        }
        "D"
    } else if key == 30 {
        proof {
            reveal_strlit("E");
        }
        "E"
    } else if key == 31 {
        proof {
            reveal_strlit("F");
        }
        "F"
    } else if key == 32 {
        proof {
            reveal_strlit("G");
        }
        "G"
    } else if key == 33 {
        proof {
            reveal_strlit("H");
        }
        "H"
    } else if key == 34 {
        proof {
            reveal_strlit("I");
        }
        "I"
    } else if key == 35 {
        proof {
            reveal_strlit("J");
        }
        "J"
    } else if key == 36 {
        proof {
            reveal_strlit("K");
        }
        "K"
    } else if key == 37 {
        proof {
            reveal_strlit("L");
        }
        "L"
    } else if key == 38 {
        proof {
            reveal_strlit("M");
        }
        "M"
    } else if key == 39 {
        proof {
            reveal_strlit("N");
        }
        "N"
    } else if key == 40 {
        proof {
            reveal_strlit("O");
        }
        "O"
    } else if key == 41 {
        proof {
            reveal_strlit("P");
        }
        "P"
    } else if key == 42 {
        proof {
            reveal_strlit("Q");
        }
        "Q"
    } else if key == 43 {
        proof {
            reveal_strlit("R");
        }
        "R"
    } else if key == 44 {
        proof {
            reveal_strlit("S");
        }
        "S"
    } else if key == 45 {
        proof {
            reveal_strlit("T");
        }
        "T"
    } else if key == 46 {
        proof {
            reveal_strlit("U");
        }
        "U"
    } else if key == 47 {
        proof {
            reveal_strlit("V");
        }
        "V"
    } else if key == 48 {
        proof {
            reveal_strlit("W");
        }
        "W"
    } else if key == 49 {
        proof {
            reveal_strlit("X");
        }
        "X"
    } else if key == 50 {
        proof {
            reveal_strlit("Y");
        }
        "Y"
    } else if key == 51 {
        proof {
            reveal_strlit("Z");
        }
        "Z"
    } else {
        proof {
            reveal_strlit("Z");
        }
        "Z"
    }
}

}

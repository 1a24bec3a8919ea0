use vstd::prelude::*;
use vstd::string::*;

verus! {

/// The character of a decimal digit.
pub open spec fn digit_char(d: int) -> char {
    if d == 0 {
        '0'
    } else if d == 1 {
        '1'
    } else if d == 2 {
        '2'
    } else if d == 3 {
        '3'
    } else if d == 4 {
        '4'
    } else if d == 5 {
        '5'
    } else if d == 6 {
        '6'
    } else if d == 7 {
        '7'
    } else if d == 8 {
        '8'
    } else {
        '9'
    }
}

/// The decimal digits of a natural number, most significant first, without leading zeros.
pub open spec fn digits(n: nat) -> Seq<char>
    decreases n,
{
    if n < 10 {
        seq![digit_char(n as int)]
    } else {
        digits(n / 10).push(digit_char((n % 10) as int))
    }
}

/// The decimal form of an integer: its digits, after a minus sign when it is negative.
pub open spec fn decimal(x: int) -> Seq<char> {
    if x < 0 {
        seq!['-'] + digits((-x) as nat)
    } else {
        digits(x as nat)
    }
}

/// The text of one decimal digit.
fn digit_str(d: u8) -> (s: &'static str)
    requires
        d < 10,
    ensures
        s@ == seq![digit_char(d as int)],
{
    proof {
        reveal_strlit("0");
        reveal_strlit("1");
        reveal_strlit("2");
        reveal_strlit("3");
        reveal_strlit("4");
        reveal_strlit("5");
        reveal_strlit("6");
        reveal_strlit("7");
        reveal_strlit("8");
        reveal_strlit("9");
    }
    match d {
        0 => "0",
        1 => "1",
        2 => "2",
        3 => "3",
        4 => "4",
        5 => "5",
        6 => "6",
        7 => "7",
        8 => "8",
        _ => "9",
    }
}

/// Appends the decimal digits of `n` to `s`.
fn push_digits(s: &mut String, n: u128)
    ensures
        final(s)@ == old(s)@ + digits(n as nat),
    decreases n,
{
    if n >= 10 {
        push_digits(s, n / 10);
    }
    let d = digit_str((n % 10) as u8);
    s.append(d);
    proof {
        if n >= 10 {
            assert(digits(n as nat) == digits((n / 10) as nat).push(digit_char((n % 10) as int)));
        } else {
            assert(digits(n as nat) == seq![digit_char(n as int)]);
        }
        assert(s@ =~= old(s)@ + digits(n as nat));
    }
}

/// The decimal form of an integer, with a minus sign when it is negative.
pub(crate) fn decimal_string(x: i128) -> (s: String)
    ensures
        s@ == decimal(x as int),
{
    let mut s = String::new();
    if x < 0 {
        proof {
            reveal_strlit("-");
        }
        s.append("-");
        let m: u128 = (-(x + 1)) as u128 + 1;
        push_digits(&mut s, m);
        proof {
            assert(s@ =~= seq!['-'] + digits((-x) as nat));
        }
    } else {
        push_digits(&mut s, x as u128);
        proof {
            assert(s@ =~= digits(x as nat));
        }
    }
    s
}

/// The name of the file of a map, under `dir`: `x_y_group.bin`.
pub open spec fn map_file_name(dir: Seq<char>, x: i32, y: i32, group: int) -> Seq<char> {
    dir + decimal(x as int) + "_"@ + decimal(y as int) + "_"@ + decimal(group) + ".bin"@
}

fn position_file(dir: &str, x: i32, y: i32, group: i128) -> (s: String)
    ensures
        s@ == map_file_name(dir@, x, y, group as int),
{
    let mut s = dir.to_owned();
    let xs = decimal_string(x as i128);
    let ys = decimal_string(y as i128);
    let gs = decimal_string(group);
    s.append(xs.as_str());
    s.append("_");
    s.append(ys.as_str());
    s.append("_");
    s.append(gs.as_str());
    s.append(".bin");
    s
}

/// The saved file of the map at `(x, y, group)`.
pub fn map_file_path(x: i32, y: i32, group: u64) -> (s: String)
    ensures
        s@ == map_file_name("./data/maps/"@, x, y, group as int),
{
    position_file("./data/maps/", x, y, group as i128)
}

/// The temporary file of the map at `(x, y, group)`.
pub fn temp_file_path(x: i32, y: i32, group: u64) -> (s: String)
    ensures
        s@ == map_file_name("./temp/"@, x, y, group as int),
{
    position_file("./temp/", x, y, group as i128)
}

/// The saved file of a map, named by its own position (a negative group written as such).
pub fn saved_file_of(p: crate::map_data::MapPosition) -> (s: String)
    ensures
        s@ == map_file_name("./data/maps/"@, p.x, p.y, p.group as int),
{
    position_file("./data/maps/", p.x, p.y, p.group as i128)
}

/// The temporary file of a map, named by its own position (a negative group written as such).
pub fn temp_file_of(p: crate::map_data::MapPosition) -> (s: String)
    ensures
        s@ == map_file_name("./temp/"@, p.x, p.y, p.group as int),
{
    position_file("./temp/", p.x, p.y, p.group as i128)
}

/// The temporary file of a map that has no position.
pub fn recovery_file_path() -> (s: String)
    ensures
        s@ == "./temp/recovery.bin"@,
{
    "./temp/recovery.bin".to_owned()
}

/// The file of preset `index`.
pub fn preset_file_path(index: usize) -> (s: String)
    ensures
        s@ == "./mapeditor/data/presets/p"@ + decimal(index as int) + ".bin"@,
{
    let mut s = "./mapeditor/data/presets/p".to_owned();
    let n = decimal_string(index as i128);
    s.append(n.as_str());
    s.append(".bin");
    s
}

} // verus!

use vstd::prelude::*;
use vstd::string::*;

use crate::map_data::MapPosition;
use crate::files::{decimal, decimal_string, digits, digit_char, map_file_name};

verus! {

/// A decimal digit character.
pub open spec fn is_digit(c: char) -> bool {
    '0' <= c <= '9'
}

/// The value of a decimal digit character.
pub open spec fn digit_value(c: char) -> int {
    (c as int) - ('0' as int)
}

/// The value of a run of decimal digits, most significant first.
pub open spec fn digits_value(s: Seq<char>) -> int
    decreases s.len(),
{
    if s.len() == 0 {
        0
    } else {
        digits_value(s.drop_last()) * 10 + digit_value(s.last())
    }
}

/// A non-empty run of decimal digits.
pub open spec fn all_digits(s: Seq<char>) -> bool {
    s.len() > 0 && forall|i: int| 0 <= i < s.len() ==> is_digit(#[trigger] s[i])
}

/// The number a text writes in decimal: digits, after an optional sign (`-` only when
/// `signed`); none for any other text.
pub open spec fn written_number(s: Seq<char>, signed: bool) -> Option<int> {
    if s.len() > 0 && s[0] == '+' && all_digits(s.drop_first()) {
        Some(digits_value(s.drop_first()))
    } else if signed && s.len() > 0 && s[0] == '-' && all_digits(s.drop_first()) {
        Some(-digits_value(s.drop_first()))
    } else if all_digits(s) {
        Some(digits_value(s))
    } else {
        None
    }
}

proof fn lemma_digits_value_step(s: Seq<char>, i: int)
    requires
        0 <= i < s.len(),
    ensures
        digits_value(s.subrange(0, i + 1)) == digits_value(s.subrange(0, i)) * 10 + digit_value(s[i]),
{
    assert(s.subrange(0, i + 1).drop_last() =~= s.subrange(0, i));
}

proof fn lemma_digits_value_nonneg(s: Seq<char>)
    requires
        forall|i: int| 0 <= i < s.len() ==> is_digit(#[trigger] s[i]),
    ensures
        digits_value(s) >= 0,
    decreases s.len(),
{
    if s.len() > 0 {
        lemma_digits_value_nonneg(s.drop_last());
        assert(is_digit(s[s.len() - 1]));
    }
}

proof fn lemma_digits_prefix_le(s: Seq<char>, k: int)
    requires
        forall|i: int| 0 <= i < s.len() ==> is_digit(#[trigger] s[i]),
        0 <= k <= s.len(),
    ensures
        digits_value(s.subrange(0, k)) <= digits_value(s),
    decreases s.len() - k,
{
    if k < s.len() {
        lemma_digits_prefix_le(s, k + 1);
        lemma_digits_value_step(s, k);
        let p = s.subrange(0, k);
        assert forall|i: int| 0 <= i < p.len() implies is_digit(#[trigger] p[i]) by {
            assert(p[i] == s[i]);
        }
        lemma_digits_value_nonneg(p);
        assert(is_digit(s[k]));
    } else {
        assert(s.subrange(0, k) =~= s);
    }
}

/// Reads the digits of `t` from character `start` on, as long as the value stays at most
/// `limit`: the value when they are all digits (at least one) and it fits; none otherwise.
fn read_digits(t: &str, start: usize, limit: u64) -> (r: Option<u64>)
    requires
        start <= t@.len(),
        limit >= 9,
    ensures
        ({
            let s = t@.subrange(start as int, t@.len() as int);
            match r {
                Some(v) => all_digits(s) && digits_value(s) == v && v <= limit,
                None => !all_digits(s) || digits_value(s) > limit,
            }
        }),
{
    let n = t.unicode_len();
    let ghost s = t@.subrange(start as int, t@.len() as int);
    if start >= n {
        return None;
    }
    let mut acc: u64 = 0;
    let mut i: usize = start;
    while i < n
        invariant
            start <= i <= n,
            n == t@.len(),
            s == t@.subrange(start as int, t@.len() as int),
            forall|j: int| 0 <= j < i - start ==> is_digit(#[trigger] s[j]),
            acc == digits_value(s.subrange(0, i - start)),
            acc <= limit,
            limit >= 9,
        decreases n - i,
    {
        let c = t.get_char(i);
        proof {
            assert(s[i - start] == t@[i as int]);
            lemma_digits_value_step(s, i - start);
        }
        if c < '0' || c > '9' {
            return None;
        }
        let d: u64 = (c as u32 - '0' as u32) as u64;
        if acc > (limit - d) / 10 {
            proof {
                assert(acc * 10 + d > limit) by (nonlinear_arith)
                    requires
                        acc > (limit - d) / 10,
                        d <= 9,
                        d <= limit,
                ;
                let k = (i - start) as int;
                if all_digits(s) {
                    lemma_digits_prefix_le(s, k + 1);
                }
            }
            return None;
        }
        acc = acc * 10 + d;
        i = i + 1;
    }
    proof {
        assert(s.subrange(0, (n - start) as int) =~= s);
    }
    Some(acc)
}

/// The value of a number of type `u64` written in a text, if it is one (std's `parse::<u64>`).
pub open spec fn parsed_u64(s: Seq<char>) -> Option<u64> {
    match written_number(s, false) {
        Some(v) => if 0 <= v <= u64::MAX {
            Some(v as u64)
        } else {
            None
        },
        None => None,
    }
}

/// The value of a number of type `i32` written in a text, or 0 when it is not one
/// (std's `parse::<i32>`, then `unwrap_or_default`).
pub open spec fn parsed_i32_or_zero(s: Seq<char>) -> i32 {
    match written_number(s, true) {
        Some(v) => if i32::MIN <= v <= i32::MAX {
            v as i32
        } else {
            0
        },
        None => 0,
    }
}

/// Reads a number of type `u64` from a text: digits, after an optional `+`.
pub fn parse_u64(text: &str) -> (r: Option<u64>)
    ensures
        r == parsed_u64(text@),
{
    let n = text.unicode_len();
    proof {
        lemma_digits_nonneg_all(text@);
    }
    if n > 0 && text.get_char(0) == '+' {
        proof {
            assert(text@.subrange(1, text@.len() as int) =~= text@.drop_first());
            assert(!is_digit(text@[0]));
        }
        read_digits(text, 1, u64::MAX)
    } else {
        proof {
            assert(text@.subrange(0, text@.len() as int) =~= text@);
        }
        read_digits(text, 0, u64::MAX)
    }
}

proof fn lemma_digits_nonneg_all(s: Seq<char>)
    ensures
        all_digits(s) ==> digits_value(s) >= 0,
        s.len() > 0 ==> (all_digits(s.drop_first()) ==> digits_value(s.drop_first()) >= 0),
{
    if all_digits(s) {
        lemma_digits_value_nonneg(s);
    }
    if s.len() > 0 && all_digits(s.drop_first()) {
        lemma_digits_value_nonneg(s.drop_first());
    }
}

/// Reads a number of type `i32` from a text: digits, after an optional `+` or `-`; 0 when the
/// text is not such a number or the number does not fit.
pub fn parse_i32_or_zero(text: &str) -> (r: i32)
    ensures
        r == parsed_i32_or_zero(text@),
{
    let n = text.unicode_len();
    proof {
        lemma_digits_nonneg_all(text@);
    }
    if n > 0 && text.get_char(0) == '-' {
        proof {
            assert(text@.subrange(1, text@.len() as int) =~= text@.drop_first());
            assert(!is_digit(text@[0]));
        }
        match read_digits(text, 1, 0x8000_0000u64) {
            Some(v) => (0 - (v as i64)) as i32,
            None => 0,
        }
    } else if n > 0 && text.get_char(0) == '+' {
        proof {
            assert(text@.subrange(1, text@.len() as int) =~= text@.drop_first());
            assert(!is_digit(text@[0]));
        }
        match read_digits(text, 1, 0x7fff_ffffu64) {
            Some(v) => v as i32,
            None => 0,
        }
    } else {
        proof {
            assert(text@.subrange(0, text@.len() as int) =~= text@);
        }
        match read_digits(text, 0, 0x7fff_ffffu64) {
            Some(v) => v as i32,
            None => 0,
        }
    }
}

/// The map position typed in the three boxes of the map position window; a box that does not
/// hold a number of type `i32` counts as 0.
pub fn map_pos_from_text(x: &str, y: &str, group: &str) -> (r: MapPosition)
    ensures
        r == (MapPosition { x: parsed_i32_or_zero(x@), y: parsed_i32_or_zero(y@), group: parsed_i32_or_zero(group@) }),
{
    MapPosition { x: parse_i32_or_zero(x), y: parse_i32_or_zero(y), group: parse_i32_or_zero(group) }
}

proof fn lemma_digits_read_back(n: nat)
    ensures
        all_digits(digits(n)),
        digits_value(digits(n)) == n,
    decreases n,
{
    if n < 10 {
        let e = seq![digit_char(n as int)];
        assert(digits(n) == e);
        assert(is_digit(digit_char(n as int)));
        assert(digit_value(digit_char(n as int)) == n);
        assert(e.drop_last() =~= Seq::<char>::empty());
        assert(digits_value(e.drop_last()) == 0);
    } else {
        lemma_digits_read_back(n / 10);
        let d = digits(n / 10);
        let e = d.push(digit_char((n % 10) as int));
        assert(digits(n) == e);
        assert(e.drop_last() =~= d);
        assert(digit_value(digit_char((n % 10) as int)) == n % 10);
        assert(digits_value(e) == digits_value(d) * 10 + digit_value(e.last()));
        assert((n / 10) * 10 + n % 10 == n);
        assert forall|i: int| 0 <= i < e.len() implies is_digit(#[trigger] e[i]) by {
            if i < d.len() {
                assert(e[i] == d[i]);
            }
        }
    }
}

/// Reading back the decimal form of a number gives the number: what the editor writes in a
/// text box, it reads again unchanged.
pub proof fn law_decimal_reads_back(n: u64, m: i32)
    ensures
        parsed_u64(decimal(n as int)) == Some(n),
        parsed_i32_or_zero(decimal(m as int)) == m,
{
    lemma_digits_read_back(n as nat);
    assert(digits(n as nat)[0] != '+') by {
        assert(is_digit(digits(n as nat)[0]));
    }
    if m >= 0 {
        lemma_digits_read_back(m as nat);
        assert(is_digit(digits(m as nat)[0]));
    } else {
        let k = (-m) as nat;
        lemma_digits_read_back(k);
        let s = seq!['-'] + digits(k);
        assert(s.drop_first() =~= digits(k));
        assert(s[0] == '-');
    }
}

proof fn lemma_decimal_reads_back_int(v: int)
    ensures
        written_number(decimal(v), true) == Some(v),
        forall|i: int| 0 <= i < decimal(v).len() ==> (#[trigger] decimal(v)[i]) != '_',
        decimal(v).len() > 0,
{
    if v >= 0 {
        lemma_digits_read_back(v as nat);
        assert(is_digit(digits(v as nat)[0]));
        assert forall|i: int| 0 <= i < decimal(v).len() implies (#[trigger] decimal(v)[i]) != '_' by {
            assert(is_digit(digits(v as nat)[i]));
        }
    } else {
        let k = (-v) as nat;
        lemma_digits_read_back(k);
        let s = seq!['-'] + digits(k);
        assert(s.drop_first() =~= digits(k));
        assert(s[0] == '-');
        assert forall|i: int| 0 <= i < s.len() implies (#[trigger] s[i]) != '_' by {
            if i > 0 {
                assert(s[i] == digits(k)[i - 1]);
                assert(is_digit(digits(k)[i - 1]));
            }
        }
    }
}

/// Two texts that each start with a part free of `sep`, then `sep`, are equal only when the
/// parts and the rests are.
proof fn lemma_split_at_separator(a: Seq<char>, b: Seq<char>, c: Seq<char>, d: Seq<char>, sep: char)
    requires
        forall|i: int| 0 <= i < a.len() ==> #[trigger] a[i] != sep,
        forall|i: int| 0 <= i < c.len() ==> #[trigger] c[i] != sep,
        a + seq![sep] + b == c + seq![sep] + d,
    ensures
        a == c,
        b == d,
{
    let l = a + seq![sep] + b;
    let r = c + seq![sep] + d;
    if a.len() < c.len() {
        assert(l[a.len() as int] == sep);
        assert(r[a.len() as int] == c[a.len() as int]);
    } else if c.len() < a.len() {
        assert(r[c.len() as int] == sep);
        assert(l[c.len() as int] == a[c.len() as int]);
    }
    assert(a.len() == c.len());
    assert(a =~= l.subrange(0, a.len() as int));
    assert(c =~= r.subrange(0, c.len() as int));
    assert(b =~= l.subrange(a.len() as int + 1, l.len() as int));
    assert(d =~= r.subrange(c.len() as int + 1, r.len() as int));
}

/// Different map positions have different files: no two maps share a saved or a temporary file.
pub proof fn law_map_files_distinct(dir: Seq<char>, x1: i32, y1: i32, g1: int, x2: i32, y2: i32, g2: int)
    requires
        map_file_name(dir, x1, y1, g1) == map_file_name(dir, x2, y2, g2),
    ensures
        x1 == x2,
        y1 == y2,
        g1 == g2,
{
    let (dx1, dy1, dg1) = (decimal(x1 as int), decimal(y1 as int), decimal(g1));
    let (dx2, dy2, dg2) = (decimal(x2 as int), decimal(y2 as int), decimal(g2));
    lemma_decimal_reads_back_int(x1 as int);
    lemma_decimal_reads_back_int(y1 as int);
    lemma_decimal_reads_back_int(x2 as int);
    lemma_decimal_reads_back_int(y2 as int);
    let bin = ".bin"@;
    let t1 = dx1 + seq!['_'] + (dy1 + seq!['_'] + (dg1 + bin));
    let t2 = dx2 + seq!['_'] + (dy2 + seq!['_'] + (dg2 + bin));
    assert(t1 == t2) by {
        let n1 = dir + dx1 + seq!['_'] + (dy1 + seq!['_'] + (dg1 + bin));
        let n2 = dir + dx2 + seq!['_'] + (dy2 + seq!['_'] + (dg2 + bin));
        assert("_"@ == seq!['_']) by {
            reveal_strlit("_");
        }
        assert(map_file_name(dir, x1, y1, g1) =~= n1);
        assert(map_file_name(dir, x2, y2, g2) =~= n2);
        assert(t1 =~= n1.subrange(dir.len() as int, n1.len() as int));
        assert(t2 =~= n2.subrange(dir.len() as int, n2.len() as int));
    }
    lemma_split_at_separator(dx1, dy1 + seq!['_'] + (dg1 + bin), dx2, dy2 + seq!['_'] + (dg2 + bin), '_');
    lemma_split_at_separator(dy1, dg1 + bin, dy2, dg2 + bin, '_');
    assert(dg1 == dg2) by {
        assert(dg1 =~= (dg1 + bin).subrange(0, dg1.len() as int));
        assert(dg2 =~= (dg2 + bin).subrange(0, dg2.len() as int));
        assert(dg1.len() == dg2.len());
    }
    lemma_decimal_reads_back_int(g1);
    lemma_decimal_reads_back_int(g2);
}

/// How the editor names a map position: `Map [X: x Y: y Group: group]`.
pub open spec fn map_name(p: MapPosition) -> Seq<char> {
    "Map [X: "@ + decimal(p.x as int) + " Y: "@ + decimal(p.y as int) + " Group: "@ + decimal(p.group as int) + "]"@
}

/// How the editor names a map position (see [`map_name`]).
pub fn map_label(p: MapPosition) -> (s: String)
    ensures
        s@ == map_name(p),
{
    let mut s = "Map [X: ".to_owned();
    let x = decimal_string(p.x as i128);
    let y = decimal_string(p.y as i128);
    let g = decimal_string(p.group as i128);
    s.append(x.as_str());
    s.append(" Y: ");
    s.append(y.as_str());
    s.append(" Group: ");
    s.append(g.as_str());
    s.append("]");
    s
}

/// The footer's text for the open map: its name, marked with `*` while it has unsaved changes.
pub fn footer_map_text(p: MapPosition, saved: bool) -> (s: String)
    ensures
        s@ == map_name(p) + (if saved {
            ""@
        } else {
            "*"@
        }),
{
    let mut s = map_label(p);
    proof {
        reveal_strlit("");
        assert(s@ + ""@ =~= s@);
    }
    if !saved {
        s.append("*");
    }
    s
}

/// A number written with at least two digits (a leading zero below ten).
pub open spec fn two_digits(n: u32) -> Seq<char> {
    if n < 10 {
        "0"@ + decimal(n as int)
    } else {
        decimal(n as int)
    }
}

/// The footer's text for the tile under the cursor: `Tile Pos [X: xx Y: yy]`.
pub fn footer_tile_text(x: u32, y: u32) -> (s: String)
    ensures
        s@ == "Tile Pos [X: "@ + two_digits(x) + " Y: "@ + two_digits(y) + "]"@,
{
    let mut s = "Tile Pos [X: ".to_owned();
    if x < 10 {
        s.append("0");
    }
    let xs = decimal_string(x as i128);
    s.append(xs.as_str());
    s.append(" Y: ");
    if y < 10 {
        s.append("0");
    }
    let ys = decimal_string(y as i128);
    s.append(ys.as_str());
    s.append("]");
    s
}

/// A notice about a map: its name, a space, then what happened to it (such as `Saved!`).
pub fn map_notice(p: MapPosition, what: &str) -> (s: String)
    ensures
        s@ == map_name(p) + " "@ + what@,
{
    let mut s = map_label(p);
    s.append(" ");
    s.append(what);
    s
}

} // verus!

//! Text helpers: string comparison, membership in a list of strings, and the
//! decimal and boolean texts under which settings are stored.

use vstd::prelude::*;
use vstd::string::StringExecFns;

verus! {

/// The characters of a list of strings, one sequence for each string.
pub open spec fn texts(v: Seq<String>) -> Seq<Seq<char>> {
    v.map_values(|s: String| s@)
}

/// The characters of a list of optional strings.
pub open spec fn opt_texts(v: Seq<Option<String>>) -> Seq<Option<Seq<char>>> {
    v.map_values(
        |s: Option<String>|
            match s {
                Some(s) => Some(s@),
                None => None,
            },
    )
}

/// The characters of a list of lists of strings.
pub open spec fn nested_texts(v: Seq<Vec<String>>) -> Seq<Seq<Seq<char>>> {
    v.map_values(|l: Vec<String>| texts(l@))
}

/// The strings of `parts` joined, in order, with nothing between them.
pub open spec fn joined(parts: Seq<Seq<char>>) -> Seq<char>
    decreases parts.len(),
{
    if parts.len() == 0 {
        Seq::empty()
    } else {
        joined(parts.drop_last()) + parts.last()
    }
}

/// The strings of `parts` joined, in order, with nothing between them.
pub fn join_all(parts: &Vec<String>) -> (r: String)
    ensures
        r@ == joined(texts(parts@)),
{
    let mut r = String::new();
    let mut i: usize = 0;
    assert(texts(parts@).take(0) =~= Seq::<Seq<char>>::empty());
    while i < parts.len()
        invariant
            i <= parts.len(),
            r@ == joined(texts(parts@).take(i as int)),
        decreases parts.len() - i,
    {
        proof {
            let t = texts(parts@).take(i + 1);
            assert(t.drop_last() =~= texts(parts@).take(i as int));
            assert(t.last() == parts[i as int]@);
        }
        r.append(parts[i].as_str());
        i += 1;
    }
    assert(texts(parts@).take(parts.len() as int) =~= texts(parts@));
    r
}

/// The characters of `s`, in order.
pub fn chars_of(s: &str) -> (v: Vec<char>)
    ensures
        v@ == s@,
{
    let mut v: Vec<char> = Vec::new();
    for c in it: s.chars()
        invariant
            v@ == it.seq().take(it.index() as int),
            it.seq() == s@,
    {
        v.push(c);
    }
    v
}

/// Whether two string slices hold the same characters.
pub fn str_eq(a: &str, b: &str) -> (r: bool)
    ensures
        r == (a@ == b@),
{
    a.to_owned() == b.to_owned()
}

/// A fresh `String` with the characters of `s`.
pub fn owned(s: &str) -> (r: String)
    ensures
        r@ == s@,
{
    s.to_owned()
}

/// The strings `a` and `b` joined, `a` first.
pub fn concat2(a: &str, b: &str) -> (r: String)
    ensures
        r@ == a@ + b@,
{
    let mut r = a.to_owned();
    r.append(b);
    r
}

/// Whether `text` occurs in `list`.
pub open spec fn occurs(list: Seq<String>, text: Seq<char>) -> bool {
    exists|i: int| 0 <= i < list.len() && (#[trigger] list[i])@ == text
}

/// `texts` of a list holds a text exactly when the text occurs in the list.
pub proof fn lemma_texts_contains(list: Seq<String>, text: Seq<char>)
    ensures
        texts(list).contains(text) == occurs(list, text),
{
    if texts(list).contains(text) {
        let i = choose|i: int| 0 <= i < texts(list).len() && texts(list)[i] == text;
        assert(list[i]@ == text);
    }
    if occurs(list, text) {
        let i = choose|i: int| 0 <= i < list.len() && (#[trigger] list[i])@ == text;
        assert(texts(list)[i] == text);
    }
}

/// The index of the first occurrence of `text` in `list`, if it occurs.
pub fn position(list: &Vec<String>, text: &str) -> (r: Option<usize>)
    ensures
        match r {
            Some(i) => i < list.len() && list[i as int]@ == text@ && forall|k: int|
                0 <= k < i ==> (#[trigger] list[k])@ != text@,
            None => !occurs(list@, text@),
        },
        r is Some == texts(list@).contains(text@),
{
    proof {
        lemma_texts_contains(list@, text@);
    }
    let needle = text.to_owned();
    let mut i: usize = 0;
    while i < list.len()
        invariant
            i <= list.len(),
            needle@ == text@,
            texts(list@).contains(text@) == occurs(list@, text@),
            forall|k: int| 0 <= k < i ==> (#[trigger] list[k])@ != text@,
        decreases list.len() - i,
    {
        if list[i] == needle {
            assert(list[i as int]@ == text@);
            return Some(i);
        }
        i += 1;
    }
    None
}

/// Whether `text` occurs in `list`.
pub fn contains(list: &Vec<String>, text: &str) -> (r: bool)
    ensures
        r == occurs(list@, text@),
        r == texts(list@).contains(text@),
{
    position(list, text).is_some()
}

/// Whether `c` is one of the ten decimal digits.
pub open spec fn is_digit(c: char) -> bool {
    48 <= c as int <= 57
}

/// The digit that stands for `d`, for `d` from 0 to 9.
pub open spec fn digit_char(d: int) -> char {
    (d + 48) as char
}

/// The number that the digit `c` stands for.
pub open spec fn digit_value(c: char) -> int {
    c as int - 48
}

/// The decimal digits of `n`, most significant first, without leading zeros.
pub open spec fn nat_text(n: nat) -> Seq<char>
    decreases n,
{
    if n < 10 {
        seq![digit_char(n as int)]
    } else {
        nat_text(n / 10).push(digit_char((n % 10) as int))
    }
}

/// The decimal text of `n`: a minus sign for a negative number, then its digits.
pub open spec fn int_text(n: int) -> Seq<char> {
    if n < 0 {
        seq!['-'] + nat_text((-n) as nat)
    } else {
        nat_text(n as nat)
    }
}

/// Whether every character of `s` is a decimal digit.
pub open spec fn all_digits(s: Seq<char>) -> bool {
    forall|i: int| 0 <= i < s.len() ==> is_digit(#[trigger] s[i])
}

/// The number that a sequence of decimal digits denotes; leading zeros count for nothing.
pub open spec fn digits_value(s: Seq<char>) -> nat
    decreases s.len(),
{
    if s.len() == 0 {
        0
    } else {
        (digits_value(s.drop_last()) * 10 + digit_value(s.last())) as nat
    }
}

/// The integer that `s` denotes: an optional `+` or `-`, then one or more
/// decimal digits and nothing else. `None` for any other text.
pub open spec fn text_int(s: Seq<char>) -> Option<int> {
    if s.len() > 0 && (s[0] == '-' || s[0] == '+') {
        let rest = s.subrange(1, s.len() as int);
        if rest.len() > 0 && all_digits(rest) {
            if s[0] == '-' {
                Some(-(digits_value(rest) as int))
            } else {
                Some(digits_value(rest) as int)
            }
        } else {
            None
        }
    } else if s.len() > 0 && all_digits(s) {
        Some(digits_value(s) as int)
    } else {
        None
    }
}

/// The `i32` that `s` denotes: `text_int(s)` where that fits, else `None`.
pub open spec fn text_i32(s: Seq<char>) -> Option<i32> {
    match text_int(s) {
        Some(n) => if i32::MIN <= n <= i32::MAX {
            Some(n as i32)
        } else {
            None
        },
        None => None,
    }
}

/// The text of a boolean: `true` or `false`.
pub open spec fn bool_text(b: bool) -> Seq<char> {
    if b {
        "true"@
    } else {
        "false"@
    }
}

/// The digits of a number are digits, at least one, and denote that number.
pub proof fn lemma_nat_text(n: nat)
    ensures
        nat_text(n).len() >= 1,
        all_digits(nat_text(n)),
        digits_value(nat_text(n)) == n,
    decreases n,
{
    if n < 10 {
        let s = nat_text(n);
        assert(s.drop_last() =~= Seq::<char>::empty());
        assert(digits_value(s.drop_last()) == 0);
        assert(s.last() == digit_char(n as int));
    } else {
        lemma_nat_text(n / 10);
        let s = nat_text(n);
        assert(s.drop_last() =~= nat_text(n / 10));
        assert(s.last() == digit_char((n % 10) as int));
        assert forall|i: int| 0 <= i < s.len() implies is_digit(#[trigger] s[i]) by {
            if i < s.len() - 1 {
                assert(s[i] == nat_text(n / 10)[i]);
            }
        }
    }
}

/// Reading back the decimal text of an integer gives that integer.
pub proof fn lemma_int_text_roundtrip(n: int)
    ensures
        text_int(int_text(n)) == Some(n),
{
    let s = int_text(n);
    if n < 0 {
        let m = (-n) as nat;
        lemma_nat_text(m);
        assert(s[0] == '-');
        assert(s.subrange(1, s.len() as int) =~= nat_text(m));
    } else {
        lemma_nat_text(n as nat);
        assert(is_digit(s[0]));
    }
}

/// Reading back the decimal text of an `i32` gives that `i32`.
pub proof fn lemma_i32_text_roundtrip(n: i32)
    ensures
        text_i32(int_text(n as int)) == Some(n),
{
    lemma_int_text_roundtrip(n as int);
}

/// A prefix of a digit sequence denotes no more than the whole sequence.
proof fn lemma_digits_value_prefix(s: Seq<char>, k: int)
    requires
        all_digits(s),
        0 <= k <= s.len(),
    ensures
        digits_value(s.take(k)) <= digits_value(s),
    decreases s.len() - k,
{
    if k == s.len() {
        assert(s.take(k) =~= s);
    } else {
        lemma_digits_value_prefix(s, k + 1);
        let t = s.take(k + 1);
        assert(t.drop_last() =~= s.take(k));
        assert(t.last() == s[k]);
        assert(is_digit(s[k]));
    }
}

fn digit_str(d: u64) -> (s: &'static str)
    requires
        d < 10,
    ensures
        s@ == seq![digit_char(d as int)],
{
    proof {
        reveal_strlit("0");
        reveal_strlit("1");
        reveal_strlit("2");
        reveal_strlit("3");
        reveal_strlit("4");
        reveal_strlit("5");
        reveal_strlit("6");
        reveal_strlit("7");
        reveal_strlit("8");
        reveal_strlit("9");
    }
    let s = if d == 0 {
        "0"
    } else if d == 1 {
        "1"
    } else if d == 2 {
        "2"
    } else if d == 3 {
        "3"
    } else if d == 4 {
        "4"
    } else if d == 5 {
        "5"
    } else if d == 6 {
        "6"
    } else if d == 7 {
        "7"
    } else if d == 8 {
        "8"
    } else {
        "9"
    };
    assert(s@ =~= seq![digit_char(d as int)]);
    s
}

fn push_nat(out: &mut String, n: u64)
    ensures
        final(out)@ == old(out)@ + nat_text(n as nat),
    decreases n,
{
    if n >= 10 {
        push_nat(out, n / 10);
    }
    out.append(digit_str(n % 10));
    assert(out@ =~= old(out)@ + nat_text(n as nat));
}

/// The decimal text of `n`.
pub fn i32_text(n: i32) -> (s: String)
    ensures
        s@ == int_text(n as int),
{
    let mut s = String::new();
    if n < 0 {
        proof {
            reveal_strlit("-");
        }
        s.append("-");
        let m: i64 = -(n as i64);
        push_nat(&mut s, m as u64);
    } else {
        push_nat(&mut s, n as u64);
    }
    assert(s@ =~= int_text(n as int));
    s
}

/// The text of `b`: `true` or `false`.
pub fn bool_str(b: bool) -> (s: String)
    ensures
        s@ == bool_text(b),
{
    if b {
        "true".to_owned()
    } else {
        "false".to_owned()
    }
}

/// The number that a decimal digit stands for; `None` for any other character.
fn digit_of(c: char) -> (r: Option<u64>)
    ensures
        match r {
            Some(d) => is_digit(c) && d == digit_value(c),
            None => !is_digit(c),
        },
{
    if c == '0' {
        Some(0)
    } else if c == '1' {
        Some(1)
    } else if c == '2' {
        Some(2)
    } else if c == '3' {
        Some(3)
    } else if c == '4' {
        Some(4)
    } else if c == '5' {
        Some(5)
    } else if c == '6' {
        Some(6)
    } else if c == '7' {
        Some(7)
    } else if c == '8' {
        Some(8)
    } else if c == '9' {
        Some(9)
    } else {
        None
    }
}

/// `text_int` in terms of the sign and of the digits after it.
proof fn lemma_text_int_parts(s: Seq<char>, start: int, rest: Seq<char>)
    requires
        s.len() > 0,
        start == if s[0] == '-' || s[0] == '+' {
            1int
        } else {
            0int
        },
        start < s.len(),
        rest == s.subrange(start, s.len() as int),
    ensures
        text_int(s) == if all_digits(rest) {
            if s[0] == '-' {
                Some(-(digits_value(rest) as int))
            } else {
                Some(digits_value(rest) as int)
            }
        } else {
            None
        },
{
    if start == 0 {
        assert(rest =~= s);
    }
}

/// Reads a decimal `i32`: an optional sign, then digits only. `None` for any
/// other text and for a number that does not fit.
pub fn parse_i32(s: &str) -> (r: Option<i32>)
    ensures
        r == text_i32(s@),
{
    let cs = chars_of(s);
    let n = cs.len();
    if n == 0 {
        return None;
    }
    let negative = cs[0] == '-';
    let start: usize = if cs[0] == '-' || cs[0] == '+' {
        1
    } else {
        0
    };
    if start == n {
        return None;
    }
    let ghost rest = s@.subrange(start as int, n as int);
    proof {
        lemma_text_int_parts(s@, start as int, rest);
    }
    let mut acc: u64 = 0;
    let mut i: usize = start;
    while i < n
        invariant
            start <= i <= n,
            n == cs.len(),
            cs@ == s@,
            rest == s@.subrange(start as int, n as int),
            all_digits(rest.take(i - start)),
            acc == digits_value(rest.take(i - start)),
            acc <= 2147483648,
            text_int(s@) == if all_digits(rest) {
                if negative {
                    Some(-(digits_value(rest) as int))
                } else {
                    Some(digits_value(rest) as int)
                }
            } else {
                None
            },
        decreases n - i,
    {
        let next: u64 = match digit_of(cs[i]) {
            Some(d) => acc * 10 + d,
            None => {
                assert(!is_digit(rest[i - start]));
                return None;
            },
        };
        proof {
            let t = rest.take(i - start + 1);
            assert(t.drop_last() =~= rest.take(i - start));
            assert(t.last() == cs[i as int]);
            assert forall|k: int| 0 <= k < t.len() implies is_digit(#[trigger] t[k]) by {
                if k < t.len() - 1 {
                    assert(t[k] == rest.take(i - start)[k]);
                }
            }
        }
        if next > 2147483648 {
            proof {
                if all_digits(rest) {
                    lemma_digits_value_prefix(rest, i - start + 1);
                }
            }
            return None;
        }
        acc = next;
        i += 1;
    }
    assert(rest.take(n - start) =~= rest);
    if negative {
        let v: i64 = -(acc as i64);
        Some(v as i32)
    } else if acc > 2147483647 {
        None
    } else {
        Some(acc as i32)
    }
}

/// Reads a boolean: `true` for the text `true`, `false` for the text `false`,
/// `None` for any other text.
pub fn parse_bool(s: &str) -> (r: Option<bool>)
    ensures
        r == if s@ == "true"@ {
            Some(true)
        } else if s@ == "false"@ {
            Some(false)
        } else {
            None
        },
{
    if str_eq(s, "true") {
        Some(true)
    } else if str_eq(s, "false") {
        Some(false)
    } else {
        None
    }
}

/// Whether a file name ends in `suffix` and holds at least one character before it.
pub open spec fn has_suffix_after_stem(name: Seq<char>, suffix: Seq<char>) -> bool {
    name.len() > suffix.len() && name.subrange(name.len() - suffix.len(), name.len() as int)
        == suffix
}

/// Whether `name` ends in `suffix` with at least one character before it.
#[verifier::loop_isolation(false)]
pub fn ends_with_after_stem(name: &str, suffix: &str) -> (r: bool)
    ensures
        r == has_suffix_after_stem(name@, suffix@),
{
    let a = chars_of(name);
    let b = chars_of(suffix);
    if a.len() <= b.len() {
        return false;
    }
    let off: usize = a.len() - b.len();
    let mut i: usize = 0;
    while i < b.len()
        invariant
            i <= b.len(),
            off + b.len() == a.len(),
            forall|k: int| 0 <= k < i ==> a[off + k] == b[k],
        decreases b.len() - i,
    {
        if a[off + i] != b[i] {
            assert(a@.subrange(off as int, a.len() as int)[i as int] != b@[i as int]);
            return false;
        }
        i += 1;
    }
    assert(a@.subrange(off as int, a.len() as int) =~= b@);
    true
}

} // verus!

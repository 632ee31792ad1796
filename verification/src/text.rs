//! Small verified string utilities shared by the other modules.

use vstd::prelude::*;
use vstd::string::*;

verus! {

/// The character for a single decimal digit.
pub open spec fn digit_char(d: nat) -> char {
    if d == 0 { '0' }
    else if d == 1 { '1' }
    else if d == 2 { '2' }
    else if d == 3 { '3' }
    else if d == 4 { '4' }
    else if d == 5 { '5' }
    else if d == 6 { '6' }
    else if d == 7 { '7' }
    else if d == 8 { '8' }
    else { '9' }
}

/// The decimal representation of `n`, without sign or leading zeros.
pub open spec fn decimal(n: nat) -> Seq<char>
    decreases n,
{
    if n < 10 {
        seq![digit_char(n)]
    } else {
        decimal(n / 10).push(digit_char(n % 10))
    }
}

/// Whether `c` is one of the ASCII digits `0`-`9`.
pub open spec fn is_ascii_digit(c: char) -> bool {
    48 <= c as int <= 57
}

/// The number that a string of ASCII digits denotes in base ten, reading
/// each character by its code (`'0'` is 48).
pub open spec fn decimal_value(s: Seq<char>) -> int
    decreases s.len(),
{
    if s.len() == 0 {
        0
    } else {
        decimal_value(s.drop_last()) * 10 + (s.last() as int - 48)
    }
}

/// Each digit character is the ASCII digit of its value.
pub proof fn lemma_digit_char_code(d: nat)
    requires
        d < 10,
    ensures
        digit_char(d) as int == 48 + d,
{
}

/// The decimal representation is the ordinary base-ten numeral: it is made
/// of ASCII digits only, reading it back in base ten gives the number, and
/// it has no leading zero (save for zero itself, written `0`).
pub proof fn lemma_decimal_reads_back(n: nat)
    ensures
        decimal(n).len() >= 1,
        forall|i: int| 0 <= i < decimal(n).len() ==> is_ascii_digit(#[trigger] decimal(n)[i]),
        decimal_value(decimal(n)) == n,
        n > 0 ==> decimal(n)[0] != '0',
        n == 0 ==> decimal(n) == seq!['0'],
    decreases n,
{
    if n < 10 {
        lemma_digit_char_code(n);
        assert(decimal(n).drop_last() =~= Seq::<char>::empty());
        assert(decimal_value(decimal(n).drop_last()) == 0);
        assert(decimal(n).last() == digit_char(n));
    } else {
        let q = n / 10;
        let r = n % 10;
        lemma_decimal_reads_back(q);
        lemma_digit_char_code(r);
        let d = decimal(n);
        assert(d.drop_last() =~= decimal(q));
        assert(d.last() == digit_char(r));
        assert(q * 10 + r == n) by (nonlinear_arith)
            requires
                q == n / 10,
                r == n % 10,
        ;
        assert(decimal_value(d) == q * 10 + r);
        assert(d[0] == decimal(q)[0]);
        assert forall|i: int| 0 <= i < d.len() implies is_ascii_digit(#[trigger] d[i]) by {
            if i < d.len() - 1 {
                assert(d[i] == decimal(q)[i]);
            }
        }
    }
}

fn digit_str(d: u16) -> (s: &'static str)
    requires
        d < 10,
    ensures
        s@ == seq![digit_char(d as nat)],
{
    proof {
        reveal_strlit("0");
        reveal_strlit("1");
        reveal_strlit("2");
        reveal_strlit("3");
        reveal_strlit("4");
        reveal_strlit("5");
        reveal_strlit("6");
        reveal_strlit("7");
        reveal_strlit("8");
        reveal_strlit("9");
    }
    if d == 0 { "0" }
    else if d == 1 { "1" }
    else if d == 2 { "2" }
    else if d == 3 { "3" }
    else if d == 4 { "4" }
    else if d == 5 { "5" }
    else if d == 6 { "6" }
    else if d == 7 { "7" }
    else if d == 8 { "8" }
    else { "9" }
}

/// Writes a port number in decimal, as `u16`'s `Display` does.
pub fn u16_to_decimal(n: u16) -> (s: String)
    ensures
        s@ == decimal(n as nat),
    decreases n,
{
    if n < 10 {
        String::from_str(digit_str(n))
    } else {
        let mut s = u16_to_decimal(n / 10);
        s.append(digit_str(n % 10));
        s
    }
}

/// A character's code with ASCII upper-case letters folded to lower case.
pub open spec fn ascii_fold(c: char) -> int {
    let x = c as int;
    if 65 <= x <= 90 { x + 32 } else { x }
}

/// Folding maps each ASCII upper-case letter to its lower-case letter and
/// leaves every other character as it is.
pub proof fn lemma_ascii_fold_letters(c: char)
    ensures
        'A' <= c <= 'Z' ==> ascii_fold(c) == c as int + 32,
        !('A' <= c <= 'Z') ==> ascii_fold(c) == c as int,
        'a' <= c <= 'z' ==> ascii_fold(c) == c as int,
{
}

/// Two character sequences are equal when ASCII letters are compared without case.
pub open spec fn eq_ignore_ascii_case(a: Seq<char>, b: Seq<char>) -> bool {
    &&& a.len() == b.len()
    &&& forall|i: int| 0 <= i < a.len() ==> ascii_fold(#[trigger] a[i]) == ascii_fold(b[i])
}

fn fold_code(c: char) -> (r: u32)
    ensures
        r as int == ascii_fold(c),
{
    let x = c as u32;
    if 65 <= x && x <= 90 { x + 32 } else { x }
}

/// ASCII case-insensitive comparison of two strings.
pub fn str_eq_ignore_ascii_case(a: &str, b: &str) -> (r: bool)
    ensures
        r == eq_ignore_ascii_case(a@, b@),
{
    let n = a.unicode_len();
    if n != b.unicode_len() {
        return false;
    }
    let mut i: usize = 0;
    while i < n
        invariant
            n == a@.len(),
            n == b@.len(),
            i <= n,
            forall|j: int| 0 <= j < i ==> ascii_fold(#[trigger] a@[j]) == ascii_fold(b@[j]),
        decreases n - i,
    {
        if fold_code(a.get_char(i)) != fold_code(b.get_char(i)) {
            return false;
        }
        i = i + 1;
    }
    true
}

/// Exact comparison of two strings.
pub fn str_eq(a: &str, b: &str) -> (r: bool)
    ensures
        r == (a@ == b@),
{
    a.to_owned() == b.to_owned()
}

/// The value paired with `name` in a list of name/value pairs; where a name
/// occurs more than once the last entry counts.
pub open spec fn pair_lookup(vars: Seq<(String, String)>, name: Seq<char>) -> Option<Seq<char>>
    decreases vars.len(),
{
    if vars.len() == 0 {
        None
    } else if vars.last().0@ == name {
        Some(vars.last().1@)
    } else {
        pair_lookup(vars.drop_last(), name)
    }
}

/// The lookup gives the value of the last entry carrying the name,
/// unchanged, and nothing when no entry carries it.
pub proof fn lemma_last_lookup_index(vars: Seq<(String, String)>, name: Seq<char>, i: int)
    requires
        0 <= i < vars.len(),
        vars[i].0@ == name,
        forall|j: int| i < j < vars.len() ==> (#[trigger] vars[j]).0@ != name,
    ensures
        pair_lookup(vars, name) == Some(vars[i].1@),
    decreases vars.len(),
{
    if i < vars.len() - 1 {
        let rest = vars.drop_last();
        assert forall|j: int| i < j < rest.len() implies (#[trigger] rest[j]).0@ != name by {
            assert(rest[j] == vars[j]);
        }
        assert(rest[i] == vars[i]);
        assert(vars[vars.len() - 1].0@ != name);
        lemma_last_lookup_index(rest, name, i);
    }
}

/// Looks a name up in a list of name/value pairs.
pub fn lookup_pair(vars: &Vec<(String, String)>, name: &str) -> (r: Option<String>)
    ensures
        match r {
            Some(v) => pair_lookup(vars@, name@) == Some(v@),
            None => pair_lookup(vars@, name@) is None,
        },
{
    let name = name.to_owned();
    let mut found: Option<String> = None;
    let mut i: usize = 0;
    while i < vars.len()
        invariant
            i <= vars@.len(),
            match found {
                Some(v) => pair_lookup(vars@.take(i as int), name@) == Some(v@),
                None => pair_lookup(vars@.take(i as int), name@) is None,
            },
        decreases vars@.len() - i,
    {
        assert(vars@.take(i + 1).drop_last() =~= vars@.take(i as int));
        if vars[i].0 == name {
            found = Some(vars[i].1.clone());
        }
        i = i + 1;
    }
    assert(vars@.take(vars@.len() as int) =~= vars@);
    found
}

/// The value paired with `name` in a list of name/value pairs, taking the
/// first entry where a name occurs more than once.
pub open spec fn pair_lookup_first(vars: Seq<(String, String)>, name: Seq<char>) -> Option<Seq<char>>
    decreases vars.len(),
{
    if vars.len() == 0 {
        None
    } else if vars[0].0@ == name {
        Some(vars[0].1@)
    } else {
        pair_lookup_first(vars.drop_first(), name)
    }
}

/// The first-entry lookup gives the value of the first entry carrying the
/// name, unchanged, and nothing when no entry carries it.
pub proof fn lemma_first_lookup_index(vars: Seq<(String, String)>, name: Seq<char>, i: int)
    requires
        0 <= i < vars.len(),
        vars[i].0@ == name,
        forall|j: int| 0 <= j < i ==> (#[trigger] vars[j]).0@ != name,
    ensures
        pair_lookup_first(vars, name) == Some(vars[i].1@),
    decreases i,
{
    if i > 0 {
        let rest = vars.drop_first();
        assert forall|j: int| 0 <= j < i - 1 implies (#[trigger] rest[j]).0@ != name by {
            assert(rest[j] == vars[j + 1]);
        }
        assert(rest[i - 1] == vars[i]);
        lemma_first_lookup_index(rest, name, i - 1);
        assert(vars[0].0@ != name);
    }
}

/// Without an entry carrying the name, the first-entry lookup gives nothing.
pub proof fn lemma_first_lookup_absent(vars: Seq<(String, String)>, name: Seq<char>)
    requires
        forall|j: int| 0 <= j < vars.len() ==> (#[trigger] vars[j]).0@ != name,
    ensures
        pair_lookup_first(vars, name) is None,
    decreases vars.len(),
{
    if vars.len() > 0 {
        let rest = vars.drop_first();
        assert forall|j: int| 0 <= j < rest.len() implies (#[trigger] rest[j]).0@ != name by {
            assert(rest[j] == vars[j + 1]);
        }
        assert(vars[0].0@ != name);
        lemma_first_lookup_absent(rest, name);
    }
}

/// Looks a name up in a list of name/value pairs, taking the first entry.
pub fn lookup_pair_first(vars: &Vec<(String, String)>, name: &str) -> (r: Option<String>)
    ensures
        match r {
            Some(v) => pair_lookup_first(vars@, name@) == Some(v@),
            None => pair_lookup_first(vars@, name@) is None,
        },
{
    let key = name.to_owned();
    let mut i: usize = 0;
    assert(vars@.skip(0) =~= vars@);
    while i < vars.len()
        invariant
            i <= vars@.len(),
            key@ == name@,
            pair_lookup_first(vars@, name@) == pair_lookup_first(vars@.skip(i as int), name@),
        decreases vars@.len() - i,
    {
        assert(vars@.skip(i as int).drop_first() =~= vars@.skip(i + 1));
        assert(vars@.skip(i as int)[0] == vars@[i as int]);
        if vars[i].0 == key {
            let v = vars[i].1.clone();
            assert(vars@.skip(i as int).len() > 0);
            assert(pair_lookup_first(vars@.skip(i as int), name@) == Some(vars@[i as int].1@));
            assert(v@ == vars@[i as int].1@);
            return Some(v);
        }
        i = i + 1;
    }
    assert(vars@.skip(i as int).len() == 0);
    None
}

} // verus!

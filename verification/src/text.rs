//! Text building blocks: decimal numbers, string comparison and scanning.

use vstd::prelude::*;

verus! {

/// The character for a single decimal digit.
pub open spec fn digit_char(d: nat) -> char {
    ('0' as nat + d) as char
}

/// `n` written in decimal, without leading zeros.
pub open spec fn dec(n: nat) -> Seq<char>
    decreases n,
{
    if n < 10 {
        seq![digit_char(n)]
    } else {
        dec(n / 10).push(digit_char(n % 10))
    }
}

/// `true` or `false`.
pub open spec fn bool_text(b: bool) -> Seq<char> {
    if b {
        "true"@
    } else {
        "false"@
    }
}

/// True of the ten ASCII digits.
pub open spec fn is_digit(c: char) -> bool {
    '0' <= c <= '9'
}

/// The number that a run of ASCII digits stands for.
pub open spec fn digits_value(s: Seq<char>) -> nat
    decreases s.len(),
{
    if s.len() == 0 {
        0
    } else {
        10 * digits_value(s.drop_last()) + (s.last() as nat - '0' as nat) as nat
    }
}

/// A decimal text consists of digits and reads back as the number written.
pub proof fn dec_reads_back(n: nat)
    ensures
        dec(n).len() > 0,
        forall|i: int| 0 <= i < dec(n).len() ==> is_digit(#[trigger] dec(n)[i]),
        digits_value(dec(n)) == n,
    decreases n,
{
    reveal_with_fuel(digits_value, 2);
    if n < 10 {
        assert(dec(n).drop_last() =~= Seq::<char>::empty());
    } else {
        dec_reads_back(n / 10);
        let d = digit_char(n % 10);
        assert(dec(n).drop_last() =~= dec(n / 10));
        assert(dec(n).last() == d);
        assert forall|i: int| 0 <= i < dec(n).len() implies is_digit(#[trigger] dec(n)[i]) by {
            if i < dec(n / 10).len() {
                assert(dec(n)[i] == dec(n / 10)[i]);
            }
        }
    }
}

/// Two numbers with the same decimal text are equal.
pub proof fn dec_injective(a: nat, b: nat)
    requires
        dec(a) == dec(b),
    ensures
        a == b,
{
    dec_reads_back(a);
    dec_reads_back(b);
}

fn digit_text(d: u64) -> (s: &'static str)
    requires
        d < 10,
    ensures
        s@ == seq![digit_char(d as nat)],
{
    proof {
        reveal_strlit("0");
        reveal_strlit("1");
        reveal_strlit("2");
        reveal_strlit("3");
        reveal_strlit("4");
        reveal_strlit("5");
        reveal_strlit("6");
        reveal_strlit("7");
        reveal_strlit("8");
        reveal_strlit("9");
    }
    if d == 0 {
        "0"
    } else if d == 1 {
        "1"
    } else if d == 2 {
        "2"
    } else if d == 3 {
        "3"
    } else if d == 4 {
        "4"
    } else if d == 5 {
        "5"
    } else if d == 6 {
        "6"
    } else if d == 7 {
        "7"
    } else if d == 8 {
        "8"
    } else {
        "9"
    }
}

/// Writes `n` in decimal.
pub fn decimal(n: u64) -> (s: String)
    ensures
        s@ == dec(n as nat),
    decreases n,
{
    let mut s: String = if n < 10 {
        String::new()
    } else {
        decimal(n / 10)
    };
    s.append(digit_text(n % 10));
    s
}

/// Writes a truth value as `true` or `false`.
pub fn bool_str(b: bool) -> (s: &'static str)
    ensures
        s@ == bool_text(b),
{
    if b {
        "true"
    } else {
        "false"
    }
}

/// The characters of a string, one by one.
pub fn chars_of(s: &str) -> (v: Vec<char>)
    ensures
        v@ == s@,
{
    let mut v: Vec<char> = Vec::new();
    for c in it: s.chars()
        invariant
            v@ == it.seq().take(it.index() as int),
            it.seq() == s@,
    {
        v.push(c);
    }
    v
}

/// Tells whether two strings hold the same characters.
pub fn same_text(a: &str, b: &str) -> (r: bool)
    ensures
        r == (a@ == b@),
{
    let x = chars_of(a);
    let y = chars_of(b);
    if x.len() != y.len() {
        return false;
    }
    let mut i: usize = 0;
    while i < x.len()
        invariant
            i <= x@.len(),
            x@.len() == y@.len(),
            x@ == a@,
            y@ == b@,
            forall|k: int| 0 <= k < i ==> x@[k] == y@[k],
        decreases x@.len() - i,
    {
        if x[i] != y[i] {
            return false;
        }
        i += 1;
    }
    assert(x@ =~= y@);
    true
}

// ---------------------------------------------------------------------------
// Searching
// ---------------------------------------------------------------------------
/// Whether a word stands in a text at a position.
pub open spec fn stands_at(s: Seq<char>, at: int, word: Seq<char>) -> bool {
    0 <= at && at + word.len() <= s.len() && forall|k: int|
        0 <= k < word.len() ==> #[trigger] s[at + k] == word[k]
}

/// The first position from `from` on at which a word stands, or the length of the text where there
/// is none.
pub open spec fn first_at(s: Seq<char>, from: int, word: Seq<char>) -> int
    decreases s.len() - from,
{
    if from >= s.len() {
        s.len() as int
    } else if stands_at(s, from, word) {
        from
    } else {
        first_at(s, from + 1, word)
    }
}

/// What stands between a word and the next place where another one stands.
pub open spec fn between(s: Seq<char>, from: int, word: Seq<char>, end: Seq<char>) -> Seq<char> {
    let a = first_at(s, from, word) + word.len();
    s.subrange(a, first_at(s, a, end))
}

/// The first position is the only one before which the word does not stand.
pub proof fn first_at_is(s: Seq<char>, from: int, word: Seq<char>, at: int)
    requires
        0 <= from <= at < s.len(),
        stands_at(s, at, word),
        forall|k: int| from <= k < at ==> !#[trigger] stands_at(s, k, word),
    ensures
        first_at(s, from, word) == at,
    decreases at - from,
{
    if from < at {
        assert(!stands_at(s, from, word));
        first_at_is(s, from + 1, word, at);
    }
}

// ---------------------------------------------------------------------------
// Laws
// ---------------------------------------------------------------------------
/// Appending a digit to a decimal text makes ten times the number and the digit out of it.
pub proof fn dec_is_decimal(n: nat, d: nat)
    requires
        d < 10,
    ensures
        "0123456789"@.len() == 10,
        dec(d) == seq!["0123456789"@[d as int]],
        n > 0 ==> dec(10 * n + d) == dec(n) + seq!["0123456789"@[d as int]],
{
    reveal_strlit("0123456789");
    assert((10 * n + d) / 10 == n && (10 * n + d) % 10 == d);
    if n > 0 {
        assert(dec(10 * n + d) =~= dec(n) + seq!["0123456789"@[d as int]]);
    }
}

/// A run of digits followed by one more stands for ten times the number and the digit.
pub proof fn digits_value_is_decimal(s: Seq<char>, d: nat)
    requires
        d < 10,
    ensures
        digits_value(seq![]) == 0,
        "0123456789"@.len() == 10,
        digits_value(s + seq!["0123456789"@[d as int]]) == 10 * digits_value(s) + d,
{
    reveal_strlit("0123456789");
    let t = s + seq!["0123456789"@[d as int]];
    assert(t.drop_last() =~= s);
}

/// Truth values are written as JSON writes them.
pub proof fn bool_text_is_json(b: bool)
    ensures
        b ==> bool_text(b) == seq!['t', 'r', 'u', 'e'],
        !b ==> bool_text(b) == seq!['f', 'a', 'l', 's', 'e'],
{
    reveal_strlit("true");
    reveal_strlit("false");
    assert("true"@ =~= seq!['t', 'r', 'u', 'e']);
    assert("false"@ =~= seq!['f', 'a', 'l', 's', 'e']);
}

/// Whether a text is made of digits and stands for a number.
pub open spec fn reads_as(s: Seq<char>, n: nat) -> bool {
    &&& s.len() > 0
    &&& forall|i: int| 0 <= i < s.len() ==> '0' <= #[trigger] s[i] <= '9'
    &&& digits_value(s) == n
}

/// A decimal text reads as its number.
pub proof fn dec_reads(n: nat)
    ensures
        reads_as(dec(n), n),
{
    dec_reads_back(n);
    assert forall|i: int| 0 <= i < dec(n).len() implies '0' <= #[trigger] dec(n)[i] <= '9' by {
        assert(is_digit(dec(n)[i]));
    }
}

} // verus!

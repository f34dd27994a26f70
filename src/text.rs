//! Character-level text facts: substring occurrence and decimal rendering.

use vstd::prelude::*;
use vstd::string::{StrSliceExecFns, StringExecFns};

verus! {

/// `k` occurs in `t` starting at character position `i`.
pub open spec fn occurs_at(t: Seq<char>, k: Seq<char>, i: int) -> bool {
    0 <= i && i + k.len() <= t.len() && t.subrange(i, i + k.len()) == k
}

/// `k` is a substring of `t`.
pub open spec fn contains_text(t: Seq<char>, k: Seq<char>) -> bool {
    exists|i: int| occurs_at(t, k, i)
}

/// A character with ASCII upper case letters taken to lower case.
pub open spec fn fold_char(c: char) -> char {
    match c {
        'A' => 'a',
        'B' => 'b',
        'C' => 'c',
        'D' => 'd',
        'E' => 'e',
        'F' => 'f',
        'G' => 'g',
        'H' => 'h',
        'I' => 'i',
        'J' => 'j',
        'K' => 'k',
        'L' => 'l',
        'M' => 'm',
        'N' => 'n',
        'O' => 'o',
        'P' => 'p',
        'Q' => 'q',
        'R' => 'r',
        'S' => 's',
        'T' => 't',
        'U' => 'u',
        'V' => 'v',
        'W' => 'w',
        'X' => 'x',
        'Y' => 'y',
        'Z' => 'z',
        _ => c,
    }
}

/// A text with ASCII upper case letters taken to lower case.
pub open spec fn fold_text(t: Seq<char>) -> Seq<char> {
    t.map_values(|c: char| fold_char(c))
}

/// `k` occurs in `t` when ASCII letter case is ignored.
pub open spec fn contains_folded(t: Seq<char>, k: Seq<char>) -> bool {
    contains_text(fold_text(t), fold_text(k))
}

/// Takes an ASCII upper case letter to lower case; other characters stay.
pub fn fold_ascii(c: char) -> (r: char)
    ensures
        r == fold_char(c),
{
    match c {
        'A' => 'a',
        'B' => 'b',
        'C' => 'c',
        'D' => 'd',
        'E' => 'e',
        'F' => 'f',
        'G' => 'g',
        'H' => 'h',
        'I' => 'i',
        'J' => 'j',
        'K' => 'k',
        'L' => 'l',
        'M' => 'm',
        'N' => 'n',
        'O' => 'o',
        'P' => 'p',
        'Q' => 'q',
        'R' => 'r',
        'S' => 's',
        'T' => 't',
        'U' => 'u',
        'V' => 'v',
        'W' => 'w',
        'X' => 'x',
        'Y' => 'y',
        'Z' => 'z',
        _ => c,
    }
}

/// The decimal digit character for `d < 10`.
pub open spec fn digit_char(d: nat) -> char {
    seq!['0', '1', '2', '3', '4', '5', '6', '7', '8', '9'][d as int]
}

/// The decimal rendering of `n`, without sign or leading zeros.
pub open spec fn decimal(n: nat) -> Seq<char>
    decreases n,
{
    if n < 10 {
        seq![digit_char(n)]
    } else {
        decimal(n / 10) + seq![digit_char(n % 10)]
    }
}

/// The one-character text of a decimal digit.
fn digit_text(d: u64) -> (r: &'static str)
    requires
        d < 10,
    ensures
        r@ == seq![digit_char(d as nat)],
{
    proof {
        reveal_strlit("0");
        reveal_strlit("1");
        reveal_strlit("2");
        reveal_strlit("3");
        reveal_strlit("4");
        reveal_strlit("5");
        reveal_strlit("6");
        reveal_strlit("7");
        reveal_strlit("8");
        reveal_strlit("9");
    }
    if d == 0 {
        "0"
    } else if d == 1 {
        "1"
    } else if d == 2 {
        "2"
    } else if d == 3 {
        "3"
    } else if d == 4 {
        "4"
    } else if d == 5 {
        "5"
    } else if d == 6 {
        "6"
    } else if d == 7 {
        "7"
    } else if d == 8 {
        "8"
    } else {
        "9"
    }
}

/// The decimal rendering of `n`.
pub fn decimal_text(n: u64) -> (r: String)
    ensures
        r@ == decimal(n as nat),
    decreases n,
{
    let last = digit_text(n % 10);
    if n < 10 {
        String::from_str(last)
    } else {
        let mut out = decimal_text(n / 10);
        out.append(last);
        out
    }
}

/// Whether `keyword` occurs in `text` as a contiguous run of characters,
/// ASCII letter case ignored.
pub fn contains_keyword(text: &str, keyword: &str) -> (r: bool)
    ensures
        r == contains_folded(text@, keyword@),
{
    let ghost ft = fold_text(text@);
    let ghost fk = fold_text(keyword@);
    let n = text.unicode_len();
    let m = keyword.unicode_len();
    assert(ft.len() == n && fk.len() == m);
    if m > n {
        assert forall|p: int| !occurs_at(ft, fk, p) by {}
        return false;
    }
    let mut i: usize = 0;
    while i <= n - m
        invariant
            ft == fold_text(text@),
            fk == fold_text(keyword@),
            n == text@.len(),
            m == keyword@.len(),
            n == ft.len(),
            m == fk.len(),
            m <= n,
            i <= n - m + 1,
            forall|p: int| 0 <= p < i ==> !occurs_at(ft, fk, p),
        decreases n - m + 1 - i,
    {
        let mut j: usize = 0;
        let mut same = true;
        while j < m
            invariant
                ft == fold_text(text@),
                fk == fold_text(keyword@),
                n == text@.len(),
                n == ft.len(),
                m == fk.len(),
                m == keyword@.len(),
                i + m <= n,
                j <= m,
                same == (forall|l: int| 0 <= l < j ==> ft[i + l] == fk[l]),
            decreases m - j,
        {
            let a = fold_ascii(text.get_char(i + j));
            let b = fold_ascii(keyword.get_char(j));
            assert(ft[i + j] == a);
            assert(fk[j as int] == b);
            same = same && a == b;
            j += 1;
        }
        if same {
            assert(ft.subrange(i as int, i + m) =~= fk);
            assert(occurs_at(ft, fk, i as int));
            return true;
        }
        assert(!occurs_at(ft, fk, i as int)) by {
            let l = choose|l: int| 0 <= l < m && ft[i + l] != fk[l];
            if ft.subrange(i as int, i + m) == fk {
                assert(ft.subrange(i as int, i + m)[l] == ft[i + l]);
            }
        }
        i += 1;
    }
    false
}

/// Whether two texts hold the same characters.
pub fn same_text(a: &str, b: &str) -> (r: bool)
    ensures
        r == (a@ == b@),
{
    let n = a.unicode_len();
    if n != b.unicode_len() {
        return false;
    }
    let mut i: usize = 0;
    while i < n
        invariant
            n == a@.len(),
            n == b@.len(),
            i <= n,
            forall|l: int| 0 <= l < i ==> a@[l] == b@[l],
        decreases n - i,
    {
        if a.get_char(i) != b.get_char(i) {
            return false;
        }
        i += 1;
    }
    assert(a@ =~= b@);
    true
}

} // verus!

//! Ordinal numbers (`1st`, `2nd`, ...) and the numbered commit messages built from them.
use crate::text::{decimal, push_chars, push_decimal};
use vstd::prelude::*;

verus! {

/// The English ordinal suffix of `n`: `th` for 11, 12 and 13 (and every number
/// ending in them), else `st`, `nd`, `rd` after a last digit 1, 2, 3, else `th`.
pub open spec fn ordinal_suffix(n: nat) -> Seq<char> {
    if 11 <= n % 100 <= 13 {
        seq!['t', 'h']
    } else if n % 10 == 1 {
        seq!['s', 't']
    } else if n % 10 == 2 {
        seq!['n', 'd']
    } else if n % 10 == 3 {
        seq!['r', 'd']
    } else {
        seq!['t', 'h']
    }
}

/// The ordinal of `n`: its numeral followed by its suffix.
pub open spec fn ordinal(n: nat) -> Seq<char> {
    decimal(n) + ordinal_suffix(n)
}

/// The message of the `n`-th commit when none is given: `<ordinal> Commit`.
pub open spec fn numbered_commit_message(n: nat) -> Seq<char> {
    ordinal(n) + seq![' ', 'C', 'o', 'm', 'm', 'i', 't']
}

/// Formats `n` as an ordinal: `1st`, `2nd`, `3rd`, `4th`, `11th`, `21st`, ...
pub fn format_ordinal(n: usize) -> (r: String)
    ensures
        r@ == ordinal(n as nat),
{
    let m = n % 100;
    let suffix: [char; 2] = if 11 <= m && m <= 13 {
        ['t', 'h']
    } else if n % 10 == 1 {
        ['s', 't']
    } else if n % 10 == 2 {
        ['n', 'd']
    } else if n % 10 == 3 {
        ['r', 'd']
    } else {
        ['t', 'h']
    };
    assert(suffix@ == ordinal_suffix(n as nat));
    let mut r = String::new();
    push_decimal(&mut r, n as u64);
    push_chars(&mut r, &suffix);
    r
}

/// The message of a new commit: the one given, or else `<ordinal> Commit` numbered
/// one past the commits that already exist.
pub fn commit_message(message: Option<String>, commit_count: usize) -> (r: String)
    requires
        message is None ==> commit_count < usize::MAX,
    ensures
        message matches Some(m) ==> r@ == m@,
        message is None ==> r@ == numbered_commit_message(commit_count as nat + 1),
{
    match message {
        Some(m) => m,
        None => {
            let mut r = format_ordinal(commit_count + 1);
            push_chars(&mut r, &[' ', 'C', 'o', 'm', 'm', 'i', 't']);
            r
        },
    }
}

/// The ordinal's suffix follows the last two digits in the English way: a last
/// digit 1, 2 or 3 gives `st`, `nd`, `rd`, except in 11, 12 and 13 (and any number
/// ending in them), which like every other number take `th`. The ordinal is the
/// numeral followed by those two letters.
pub proof fn lemma_ordinal_suffix_rule(n: nat)
    ensures
        ordinal(n).len() == decimal(n).len() + 2,
        ordinal(n).subrange(0, decimal(n).len() as int) == decimal(n),
        n % 10 == 1 && n % 100 != 11 ==> ordinal(n).subrange(
            ordinal(n).len() - 2,
            ordinal(n).len() as int,
        ) == seq!['s', 't'],
        n % 10 == 2 && n % 100 != 12 ==> ordinal(n).subrange(
            ordinal(n).len() - 2,
            ordinal(n).len() as int,
        ) == seq!['n', 'd'],
        n % 10 == 3 && n % 100 != 13 ==> ordinal(n).subrange(
            ordinal(n).len() - 2,
            ordinal(n).len() as int,
        ) == seq!['r', 'd'],
        !(n % 10 == 1 && n % 100 != 11) && !(n % 10 == 2 && n % 100 != 12) && !(n % 10 == 3
            && n % 100 != 13) ==> ordinal(n).subrange(
            ordinal(n).len() - 2,
            ordinal(n).len() as int,
        ) == seq!['t', 'h'],
{
    vstd::arithmetic::div_mod::lemma_mod_mod(n as int, 10, 10);
    let m = n % 100;
    assert(m % 10 == n % 10);
    assert(11 <= m <= 13 ==> m % 10 == m - 10);
    let o = ordinal(n);
    let d = decimal(n);
    let t = ordinal_suffix(n);
    assert(o.subrange(0, d.len() as int) =~= d);
    assert(o.subrange(o.len() - 2, o.len() as int) =~= t);
}

} // verus!

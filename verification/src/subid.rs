//! The subscription ids that the core gives its requests, and how it tells
//! them apart when a relay names one.

use vstd::prelude::*;
use vstd::string::StrSliceExecFns;
use vstd::string::StringExecFns;

verus! {

/// The character of a decimal digit.
pub open spec fn digit_char(d: nat) -> char {
    if d == 0 {
        '0'
    } else if d == 1 {
        '1'
    } else if d == 2 {
        '2'
    } else if d == 3 {
        '3'
    } else if d == 4 {
        '4'
    } else if d == 5 {
        '5'
    } else if d == 6 {
        '6'
    } else if d == 7 {
        '7'
    } else if d == 8 {
        '8'
    } else {
        '9'
    }
}

/// The decimal numeral of `n`, without leading zeros.
pub open spec fn decimal(n: nat) -> Seq<char>
    decreases n,
{
    if n < 10 {
        seq![digit_char(n)]
    } else {
        decimal(n / 10).push(digit_char(n % 10))
    }
}

/// The id of the `n`-th subscription that a connection opens for the
/// timelines, counted from one.
pub open spec fn initial_label(n: nat) -> Seq<char> {
    "initial"@ + decimal(n)
}

/// The id of every request that resolves unknown identities.
pub open spec fn unknown_ids_label() -> Seq<char> {
    "unknown_ids"@
}

/// What a subscription id stands for.
#[derive(Debug, Clone, Copy, PartialEq, Eq, Structural)]
pub enum SubKind {
    /// A timeline's subscription, opened when the connection was.
    Initial,
    /// A request that resolves unknown identities.
    UnknownIds,
    /// Nothing that the core has opened.
    Other,
}

/// What the id `subid` stands for: the prefix of the timelines' ids is
/// looked for first.
pub open spec fn sub_kind(subid: Seq<char>) -> SubKind {
    if "initial"@.is_prefix_of(subid) {
        SubKind::Initial
    } else if subid == unknown_ids_label() {
        SubKind::UnknownIds
    } else {
        SubKind::Other
    }
}

fn digit_str(d: usize) -> (s: &'static str)
    requires
        d < 10,
    ensures
        s@ == seq![digit_char(d as nat)],
{
    proof {
        reveal_strlit("0");
        reveal_strlit("1");
        reveal_strlit("2");
        reveal_strlit("3");
        reveal_strlit("4");
        reveal_strlit("5");
        reveal_strlit("6");
        reveal_strlit("7");
        reveal_strlit("8");
        reveal_strlit("9");
    }
    let s = if d == 0 {
        "0"
    } else if d == 1 {
        "1"
    } else if d == 2 {
        "2"
    } else if d == 3 {
        "3"
    } else if d == 4 {
        "4"
    } else if d == 5 {
        "5"
    } else if d == 6 {
        "6"
    } else if d == 7 {
        "7"
    } else if d == 8 {
        "8"
    } else {
        "9"
    };
    s
}

fn push_decimal(s: &mut String, n: usize)
    ensures
        final(s)@ == old(s)@ + decimal(n as nat),
    decreases n,
{
    if n >= 10 {
        push_decimal(s, n / 10);
    }
    s.append(digit_str(n % 10));
}

/// The id of the `n`-th subscription that a connection opens for the
/// timelines.
pub fn initial_subid(n: usize) -> (s: String)
    ensures
        s@ == initial_label(n as nat),
{
    let mut s = String::from_str("initial");
    push_decimal(&mut s, n);
    s
}

/// The id of a request that resolves unknown identities.
pub fn unknown_ids_subid() -> (s: String)
    ensures
        s@ == unknown_ids_label(),
{
    String::from_str("unknown_ids")
}

/// Whether `s` begins with `prefix`.
pub fn starts_with(s: &str, prefix: &str) -> (b: bool)
    ensures
        b == prefix@.is_prefix_of(s@),
{
    let n = prefix.unicode_len();
    if s.unicode_len() < n {
        return false;
    }
    let mut i: usize = 0;
    while i < n
        invariant
            i <= n,
            n == prefix@.len(),
            n <= s@.len(),
            forall|k: int| 0 <= k < i ==> s@[k] == prefix@[k],
        decreases n - i,
    {
        if s.get_char(i) != prefix.get_char(i) {
            return false;
        }
        i = i + 1;
    }
    true
}

/// Whether two strings hold the same text.
pub fn same_text(a: &str, b: &str) -> (r: bool)
    ensures
        r == (a@ == b@),
{
    if a.unicode_len() != b.unicode_len() {
        return false;
    }
    let r = starts_with(a, b);
    proof {
        if r {
            assert(a@ =~= a@.subrange(0, a@.len() as int));
        }
    }
    r
}

/// Tells what a subscription id stands for.
pub fn classify(subid: &str) -> (k: SubKind)
    ensures
        k == sub_kind(subid@),
{
    if starts_with(subid, "initial") {
        SubKind::Initial
    } else if same_text(subid, "unknown_ids") {
        SubKind::UnknownIds
    } else {
        SubKind::Other
    }
}

/// The id of a timeline's subscription is told apart from the id of a
/// resolving request, whatever its number.
pub proof fn lemma_labels_distinct(n: nat)
    ensures
        sub_kind(initial_label(n)) == SubKind::Initial,
        sub_kind(unknown_ids_label()) == SubKind::UnknownIds,
{
    reveal_strlit("initial");
    reveal_strlit("unknown_ids");
    assert("initial"@[0] == 'i');
}

/// Different numbers have different numerals.
pub proof fn lemma_decimal_injective(m: nat, n: nat)
    requires
        decimal(m) == decimal(n),
    ensures
        m == n,
    decreases m,
{
    lemma_decimal_len(m);
    lemma_decimal_len(n);
    if m < 10 || n < 10 {
        assert(decimal(m)[0] == digit_char(m));
    } else {
        assert(decimal(m).last() == digit_char(m % 10));
        assert(decimal(m).drop_last() =~= decimal(m / 10));
        assert(decimal(n).drop_last() =~= decimal(n / 10));
        lemma_decimal_injective(m / 10, n / 10);
    }
}

/// A numeral has one digit exactly for the numbers below ten.
pub proof fn lemma_decimal_len(n: nat)
    ensures
        decimal(n).len() >= 1,
        n >= 10 ==> decimal(n).len() >= 2,
    decreases n,
{
    if n >= 10 {
        lemma_decimal_len(n / 10);
    }
}

/// The timelines' subscriptions of one connection all have different ids.
pub proof fn lemma_initial_labels_differ(m: nat, n: nat)
    requires
        initial_label(m) == initial_label(n),
    ensures
        m == n,
{
    let a = initial_label(m);
    let b = initial_label(n);
    let k = "initial"@.len() as int;
    assert(a.subrange(k, a.len() as int) =~= decimal(m));
    assert(b.subrange(k, b.len() as int) =~= decimal(n));
    lemma_decimal_injective(m, n);
}

} // verus!

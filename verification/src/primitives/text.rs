//! Ordering of strings by their characters.
//!
//! Addresses and event types are kept sorted, so that every walk over a map
//! visits its keys in one fixed order. The order is the usual dictionary
//! order on sequences of characters, which is also the order of `str`.

use vstd::prelude::*;
use vstd::string::*;

verus! {

/// How the first of two strings stands to the second.
#[derive(Clone, Copy, Debug, PartialEq, Eq, Structural)]
pub enum Order {
    Before,
    Same,
    After,
}

/// Dictionary order of `a` and `b`, looking only at positions from `i` on.
pub open spec fn order_from(a: Seq<char>, b: Seq<char>, i: int) -> Order
    decreases a.len() - i,
{
    if i < 0 {
        Order::Same
    } else if i >= a.len() {
        if i >= b.len() {
            Order::Same
        } else {
            Order::Before
        }
    } else if i >= b.len() {
        Order::After
    } else if (a[i] as int) < (b[i] as int) {
        Order::Before
    } else if (a[i] as int) > (b[i] as int) {
        Order::After
    } else {
        order_from(a, b, i + 1)
    }
}

/// Dictionary order of `a` and `b`.
pub open spec fn order(a: Seq<char>, b: Seq<char>) -> Order {
    order_from(a, b, 0)
}

/// `a` comes strictly before `b` in dictionary order.
pub open spec fn lex_lt(a: Seq<char>, b: Seq<char>) -> bool {
    order(a, b) == Order::Before
}

/// Whether `a` and `b` agree on every position below `i`.
pub open spec fn agree_below(a: Seq<char>, b: Seq<char>, i: int) -> bool {
    &&& i <= a.len()
    &&& i <= b.len()
    &&& forall|j: int| 0 <= j < i ==> a[j] == b[j]
}

proof fn lemma_order_same_from(a: Seq<char>, b: Seq<char>, i: int)
    requires
        0 <= i,
        agree_below(a, b, i),
        order_from(a, b, i) == Order::Same,
    ensures
        a == b,
    decreases a.len() - i,
{
    if i >= a.len() {
        assert(a =~= b);
    } else {
        assert(a[i] == b[i]);
        lemma_order_same_from(a, b, i + 1);
    }
}

proof fn lemma_order_refl_from(a: Seq<char>, i: int)
    requires
        0 <= i,
    ensures
        order_from(a, a, i) == Order::Same,
    decreases a.len() - i,
{
    if i < a.len() {
        lemma_order_refl_from(a, i + 1);
    }
}

proof fn lemma_order_flip_from(a: Seq<char>, b: Seq<char>, i: int)
    requires
        0 <= i,
    ensures
        order_from(a, b, i) == Order::Before <==> order_from(b, a, i) == Order::After,
        order_from(a, b, i) == Order::Same <==> order_from(b, a, i) == Order::Same,
    decreases a.len() - i,
{
    if i < a.len() && i < b.len() && a[i] == b[i] {
        lemma_order_flip_from(a, b, i + 1);
    }
}

proof fn lemma_order_trans_from(a: Seq<char>, b: Seq<char>, c: Seq<char>, i: int)
    requires
        0 <= i,
        order_from(a, b, i) == Order::Before,
        order_from(b, c, i) == Order::Before,
    ensures
        order_from(a, c, i) == Order::Before,
    decreases a.len() - i,
{
    if i < a.len() && i < b.len() && i < c.len() && a[i] == b[i] && b[i] == c[i] {
        lemma_order_trans_from(a, b, c, i + 1);
    }
}

/// Two strings stand in order `Same` exactly when they are equal.
pub proof fn lemma_order_same(a: Seq<char>, b: Seq<char>)
    ensures
        order(a, b) == Order::Same <==> a == b,
{
    if order(a, b) == Order::Same {
        lemma_order_same_from(a, b, 0);
    }
    if a == b {
        lemma_order_refl_from(a, 0);
    }
}

/// Swapping the two strings swaps `Before` and `After`.
pub proof fn lemma_order_flip(a: Seq<char>, b: Seq<char>)
    ensures
        order(a, b) == Order::Before <==> order(b, a) == Order::After,
        order(a, b) == Order::Same <==> order(b, a) == Order::Same,
{
    lemma_order_flip_from(a, b, 0);
}

/// Dictionary order is transitive.
pub proof fn lemma_lex_lt_trans(a: Seq<char>, b: Seq<char>, c: Seq<char>)
    requires
        lex_lt(a, b),
        lex_lt(b, c),
    ensures
        lex_lt(a, c),
{
    lemma_order_trans_from(a, b, c, 0);
}

/// Of two different strings exactly one comes before the other, and no string
/// comes before itself.
pub proof fn lemma_lex_lt_total(a: Seq<char>, b: Seq<char>)
    ensures
        a != b ==> (lex_lt(a, b) <==> !lex_lt(b, a)),
        a == b ==> !lex_lt(a, b),
{
    lemma_order_same(a, b);
    lemma_order_flip(a, b);
    lemma_order_flip(b, a);
}

/// Compares two strings in dictionary order.
pub fn str_order(a: &str, b: &str) -> (r: Order)
    ensures
        r == order(a@, b@),
{
    let la: usize = a.unicode_len();
    let lb: usize = b.unicode_len();
    let mut i: usize = 0;
    while i < la && i < lb
        invariant
            la == a@.len(),
            lb == b@.len(),
            i <= la,
            i <= lb,
            order(a@, b@) == order_from(a@, b@, i as int),
        decreases la - i,
    {
        let ca: char = a.get_char(i);
        let cb: char = b.get_char(i);
        if (ca as u32) < (cb as u32) {
            return Order::Before;
        }
        if (ca as u32) > (cb as u32) {
            return Order::After;
        }
        i = i + 1;
    }
    if i < lb {
        Order::Before
    } else if i < la {
        Order::After
    } else {
        Order::Same
    }
}

/// Whether two strings hold the same characters.
pub fn str_same(a: &str, b: &str) -> (r: bool)
    ensures
        r == (a@ == b@),
{
    proof {
        lemma_order_same(a@, b@);
    }
    str_order(a, b) == Order::Same
}


/// The character of a decimal digit.
pub open spec fn digit_char(d: nat) -> char {
    (48 + d) as char
}

/// `n` in decimal digits, without leading zeros.
pub open spec fn decimal(n: nat) -> Seq<char>
    decreases n,
{
    if n < 10 {
        seq![digit_char(n)]
    } else {
        decimal(n / 10).push(digit_char(n % 10))
    }
}

/// An integer in decimal digits, with a minus sign in front of a negative
/// one.
pub open spec fn signed_decimal(n: int) -> Seq<char> {
    if n < 0 {
        seq!['-'] + decimal((-n) as nat)
    } else {
        decimal(n as nat)
    }
}

/// The text of one decimal digit.
pub fn digit_text(d: u64) -> (r: &'static str)
    requires
        d < 10,
    ensures
        r@ == seq![digit_char(d as nat)],
{
    proof {
        reveal_strlit("0");
        reveal_strlit("1");
        reveal_strlit("2");
        reveal_strlit("3");
        reveal_strlit("4");
        reveal_strlit("5");
        reveal_strlit("6");
        reveal_strlit("7");
        reveal_strlit("8");
        reveal_strlit("9");
    }
    let r = if d == 0 {
        "0"
    } else if d == 1 {
        "1"
    } else if d == 2 {
        "2"
    } else if d == 3 {
        "3"
    } else if d == 4 {
        "4"
    } else if d == 5 {
        "5"
    } else if d == 6 {
        "6"
    } else if d == 7 {
        "7"
    } else if d == 8 {
        "8"
    } else {
        "9"
    };
    assert(r@ =~= seq![digit_char(d as nat)]);
    r
}

/// `n` in decimal digits.
pub fn u64_to_string(n: u64) -> (r: String)
    ensures
        r@ == decimal(n as nat),
    decreases n,
{
    if n < 10 {
        String::from_str(digit_text(n))
    } else {
        let head = u64_to_string(n / 10);
        let r = head.concat(digit_text(n % 10));
        assert(r@ =~= decimal(n as nat));
        r
    }
}

/// `n` in decimal digits, with a minus sign in front where it is negative.
pub fn i64_to_string(n: i64) -> (r: String)
    ensures
        r@ == signed_decimal(n as int),
{
    if n >= 0 {
        u64_to_string(n as u64)
    } else {
        // -(n + 1) fits where -n may not
        let magnitude: u64 = (-(n + 1)) as u64 + 1;
        proof {
            reveal_strlit("-");
        }
        let r = String::from_str("-").concat(u64_to_string(magnitude).as_str());
        assert(r@ =~= signed_decimal(n as int));
        r
    }
}

/// Whether `text` begins with `prefix`.
pub open spec fn begins_with(text: Seq<char>, prefix: Seq<char>) -> bool {
    prefix.len() <= text.len() && text.subrange(0, prefix.len() as int) == prefix
}

/// Whether `text` begins with `prefix`.
pub fn starts_with(text: &str, prefix: &str) -> (r: bool)
    ensures
        r == begins_with(text@, prefix@),
{
    let n: usize = text.unicode_len();
    let m: usize = prefix.unicode_len();
    if m > n {
        return false;
    }
    let mut i: usize = 0;
    while i < m
        invariant
            n == text@.len(),
            m == prefix@.len(),
            m <= n,
            i <= m,
            forall|j: int| 0 <= j < i ==> text@[j] == prefix@[j],
        decreases m - i,
    {
        if text.get_char(i) != prefix.get_char(i) {
            proof {
                assert(text@.subrange(0, m as int)[i as int] == text@[i as int]);
            }
            return false;
        }
        i = i + 1;
    }
    assert(text@.subrange(0, m as int) =~= prefix@);
    true
}

/// Whether `text` ends with `suffix`.
pub open spec fn finishes_with(text: Seq<char>, suffix: Seq<char>) -> bool {
    suffix.len() <= text.len() && text.subrange(text.len() - suffix.len(), text.len() as int)
        == suffix
}

/// Whether `text` ends with `suffix`.
pub fn ends_with(text: &str, suffix: &str) -> (r: bool)
    ensures
        r == finishes_with(text@, suffix@),
{
    let n: usize = text.unicode_len();
    let m: usize = suffix.unicode_len();
    if m > n {
        return false;
    }
    let start: usize = n - m;
    let mut i: usize = 0;
    while i < m
        invariant
            n == text@.len(),
            m == suffix@.len(),
            m <= n,
            start == n - m,
            i <= m,
            forall|j: int| 0 <= j < i ==> text@[start + j] == suffix@[j],
        decreases m - i,
    {
        if text.get_char(start + i) != suffix.get_char(i) {
            proof {
                assert(text@.subrange(start as int, n as int)[i as int] == text@[start + i]);
            }
            return false;
        }
        i = i + 1;
    }
    assert(text@.subrange(start as int, n as int) =~= suffix@);
    true
}

} // verus!

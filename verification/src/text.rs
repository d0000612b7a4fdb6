//! Text helpers shared by the other modules: comparing strings by their
//! UTF-8 bytes and writing integers in decimal.

use vstd::prelude::*;
use vstd::string::StringExecFns;
use vstd::utf8::encode_utf8;

verus! {

broadcast use vstd::string::group_string_axioms;

/// Byte-wise lexicographic order, strict: `a` comes before `b` when `a` is a
/// proper prefix of `b` or the first byte in which they differ is smaller
/// in `a`. This is the order in which `String` keys sort.
pub open spec fn bytes_before(a: Seq<u8>, b: Seq<u8>) -> bool {
    exists|k: int| #[trigger] differs_at(a, b, k) && (k == a.len() || a[k] < b[k])
}

/// `k` is the first position at which `a` and `b` differ: they agree on
/// their first `k` bytes, `b` goes on past them, and `a` either ends there
/// or holds another byte.
pub open spec fn differs_at(a: Seq<u8>, b: Seq<u8>, k: int) -> bool {
    &&& 0 <= k <= a.len()
    &&& k < b.len()
    &&& a.take(k) == b.take(k)
    &&& k < a.len() ==> a[k] != b[k]
}

/// The order of two texts is that of their UTF-8 encodings.
pub open spec fn text_before(a: Seq<char>, b: Seq<char>) -> bool {
    bytes_before(encode_utf8(a), encode_utf8(b))
}

/// Two texts with the same UTF-8 encoding are the same text.
pub proof fn lemma_encoding_injective(a: Seq<char>, b: Seq<char>)
    requires
        encode_utf8(a) == encode_utf8(b),
    ensures
        a == b,
{
    vstd::utf8::encode_utf8_decode_utf8(a);
    vstd::utf8::encode_utf8_decode_utf8(b);
}

/// Of two different byte sequences one comes before the other.
pub proof fn lemma_bytes_before_total(a: Seq<u8>, b: Seq<u8>)
    ensures
        a == b || bytes_before(a, b) || bytes_before(b, a),
{
    if a != b {
        let k = first_difference(a, b, 0);
        assert(a.take(0) == b.take(0));
        lemma_first_difference(a, b, 0);
        if k == a.len() {
            assert(differs_at(a, b, k));
        } else if k == b.len() {
            assert(differs_at(b, a, k));
        } else if a[k] < b[k] {
            assert(differs_at(a, b, k));
        } else {
            assert(differs_at(b, a, k));
        }
    }
}

/// The order is transitive.
pub proof fn lemma_bytes_before_transitive(a: Seq<u8>, b: Seq<u8>, c: Seq<u8>)
    requires
        bytes_before(a, b),
        bytes_before(b, c),
    ensures
        bytes_before(a, c),
{
    let i = choose|k: int| #[trigger] differs_at(a, b, k) && (k == a.len() || a[k] < b[k]);
    let j = choose|k: int| #[trigger] differs_at(b, c, k) && (k == b.len() || b[k] < c[k]);
    let m = if i <= j { i } else { j };
    assert(a.take(m) == c.take(m)) by {
        assert(a.take(m) == a.take(i).take(m));
        assert(b.take(m) == b.take(i).take(m));
        assert(b.take(m) == b.take(j).take(m));
        assert(c.take(m) == c.take(j).take(m));
    }
    if m < a.len() {
        assert(a.take(i)[m] == b.take(i)[m] || m == i);
        assert(b.take(j)[m] == c.take(j)[m] || m == j);
    }
    assert(differs_at(a, c, m));
}

/// The first position from `from` on at which `a` and `b` differ, a
/// missing byte counting as a difference.
spec fn first_difference(a: Seq<u8>, b: Seq<u8>, from: int) -> int
    decreases a.len() - from,
{
    if from < 0 || from >= a.len() || from >= b.len() || a[from] != b[from] {
        from
    } else {
        first_difference(a, b, from + 1)
    }
}

proof fn lemma_first_difference(a: Seq<u8>, b: Seq<u8>, from: int)
    requires
        a != b,
        0 <= from <= a.len(),
        from <= b.len(),
        a.take(from) == b.take(from),
    ensures
        ({
            let k = first_difference(a, b, from);
            &&& from <= k <= a.len()
            &&& k <= b.len()
            &&& a.take(k) == b.take(k)
            &&& !(k == a.len() && k == b.len())
            &&& k < a.len() && k < b.len() ==> a[k] != b[k]
        }),
    decreases a.len() - from,
{
    if from >= a.len() || from >= b.len() {
        if from == a.len() && from == b.len() {
            assert(a.take(from) == a);
            assert(b.take(from) == b);
        }
    } else if a[from] != b[from] {
    } else {
        assert(a.take(from + 1) == a.take(from).push(a[from]));
        assert(b.take(from + 1) == b.take(from).push(b[from]));
        lemma_first_difference(a, b, from + 1);
    }
}

/// Whether two strings hold the same text.
pub fn same_text(a: &str, b: &str) -> (r: bool)
    ensures
        r == (a@ == b@),
{
    let x = a.as_bytes();
    let y = b.as_bytes();
    if x.len() != y.len() {
        return false;
    }
    let mut i: usize = 0;
    while i < x.len()
        invariant
            i <= x.len(),
            x.len() == y.len(),
            x@ == encode_utf8(a@),
            y@ == encode_utf8(b@),
            x@.take(i as int) == y@.take(i as int),
        decreases x.len() - i,
    {
        if x[i] != y[i] {
            return false;
        }
        assert(x@.take(i + 1) == x@.take(i as int).push(x@[i as int]));
        assert(y@.take(i + 1) == y@.take(i as int).push(y@[i as int]));
        i += 1;
    }
    proof {
        assert(x@.take(i as int) == x@);
        assert(y@.take(i as int) == y@);
        lemma_encoding_injective(a@, b@);
    }
    true
}

/// Whether `a` sorts before `b` in the order of `String` keys.
pub fn sorts_before(a: &str, b: &str) -> (r: bool)
    ensures
        r == text_before(a@, b@),
{
    let x = a.as_bytes();
    let y = b.as_bytes();
    let mut i: usize = 0;
    while i < x.len() && i < y.len()
        invariant
            i <= x.len(),
            i <= y.len(),
            x@ == encode_utf8(a@),
            y@ == encode_utf8(b@),
            x@.take(i as int) == y@.take(i as int),
        decreases x.len() - i,
    {
        if x[i] != y[i] {
            proof {
                lemma_order_decided(x@, y@, i as int);
            }
            return x[i] < y[i];
        }
        assert(x@.take(i + 1) == x@.take(i as int).push(x@[i as int]));
        assert(y@.take(i + 1) == y@.take(i as int).push(y@[i as int]));
        i += 1;
    }
    proof {
        lemma_order_decided(x@, y@, i as int);
    }
    i < y.len()
}

/// Once the first difference between `a` and `b` is known to lie at `k`,
/// it alone decides their order.
proof fn lemma_order_decided(a: Seq<u8>, b: Seq<u8>, k: int)
    requires
        0 <= k <= a.len(),
        k <= b.len(),
        a.take(k) == b.take(k),
        k < a.len() && k < b.len() ==> a[k] != b[k],
    ensures
        bytes_before(a, b) == (k < b.len() && (k == a.len() || a[k] < b[k])),
{
    if k < b.len() && (k == a.len() || a[k] < b[k]) {
        assert(differs_at(a, b, k));
    } else if bytes_before(a, b) {
        let j = choose|j: int| #[trigger] differs_at(a, b, j) && (j == a.len() || a[j] < b[j]);
        if j < k {
            assert(a.take(k)[j] == a[j]);
            assert(b.take(k)[j] == b[j]);
        } else if j > k {
            assert(a.take(j)[k] == a[k]);
            assert(b.take(j)[k] == b[k]);
        }
    }
}

/// The character that stands for the decimal digit `d`.
pub open spec fn digit(d: int) -> char {
    if d == 0 {
        '0'
    } else if d == 1 {
        '1'
    } else if d == 2 {
        '2'
    } else if d == 3 {
        '3'
    } else if d == 4 {
        '4'
    } else if d == 5 {
        '5'
    } else if d == 6 {
        '6'
    } else if d == 7 {
        '7'
    } else if d == 8 {
        '8'
    } else {
        '9'
    }
}

/// The decimal digits of `n`, most significant first, without leading
/// zeros; zero is written `0`.
pub open spec fn digits(n: nat) -> Seq<char>
    decreases n,
{
    if n < 10 {
        seq![digit(n as int)]
    } else {
        digits(n / 10).push(digit((n % 10) as int))
    }
}

/// The decimal rendering of an integer: its digits, after a minus sign
/// when it is negative.
pub open spec fn decimal(n: int) -> Seq<char> {
    if n < 0 {
        seq!['-'] + digits((-n) as nat)
    } else {
        digits(n as nat)
    }
}

/// Whether `c` is one of the ten decimal digits.
pub open spec fn is_digit(c: char) -> bool {
    c == '0' || c == '1' || c == '2' || c == '3' || c == '4' || c == '5' || c == '6' || c == '7'
        || c == '8' || c == '9'
}

/// The digits of a number are digits, and there is at least one.
pub proof fn lemma_digits_are_digits(n: nat)
    ensures
        digits(n).len() > 0,
        forall|i: int| 0 <= i < digits(n).len() ==> is_digit(#[trigger] digits(n)[i]),
    decreases n,
{
    if n >= 10 {
        lemma_digits_are_digits(n / 10);
    }
}

/// Different numbers have different digits.
pub proof fn lemma_digits_injective(a: nat, b: nat)
    requires
        digits(a) == digits(b),
    ensures
        a == b,
    decreases a,
{
    lemma_digits_are_digits(a / 10);
    lemma_digits_are_digits(b / 10);
    if a < 10 && b < 10 {
        assert(digits(a)[0] == digit(a as int));
        assert(digits(b)[0] == digit(b as int));
    } else if a >= 10 && b >= 10 {
        assert(digits(a).last() == digit((a % 10) as int));
        assert(digits(b).last() == digit((b % 10) as int));
        assert(digits(a).drop_last() == digits(a / 10));
        assert(digits(b).drop_last() == digits(b / 10));
        lemma_digits_injective(a / 10, b / 10);
    } else if a < 10 {
        assert(digits(a).len() == 1);
        assert(digits(b).len() >= 2);
    } else {
        assert(digits(b).len() == 1);
        assert(digits(a).len() >= 2);
    }
}

/// Different integers have different decimal renderings.
pub proof fn lemma_decimal_injective(a: int, b: int)
    requires
        decimal(a) == decimal(b),
    ensures
        a == b,
{
    let x = if a < 0 { (-a) as nat } else { a as nat };
    let y = if b < 0 { (-b) as nat } else { b as nat };
    lemma_digits_are_digits(x);
    lemma_digits_are_digits(y);
    assert(is_digit(digits(x)[0]) && is_digit(digits(y)[0]));
    assert(decimal(a)[0] == decimal(b)[0]);
    if a < 0 && b < 0 {
        assert(digits(x) == decimal(a).drop_first());
        assert(digits(y) == decimal(b).drop_first());
    }
    if (a < 0) == (b < 0) {
        lemma_digits_injective(x, y);
    }
}

fn digit_text(d: u64) -> (r: &'static str)
    requires
        d < 10,
    ensures
        r@ == seq![digit(d as int)],
{
    proof {
        reveal_strlit("0");
        reveal_strlit("1");
        reveal_strlit("2");
        reveal_strlit("3");
        reveal_strlit("4");
        reveal_strlit("5");
        reveal_strlit("6");
        reveal_strlit("7");
        reveal_strlit("8");
        reveal_strlit("9");
    }
    let r = if d == 0 {
        "0"
    } else if d == 1 {
        "1"
    } else if d == 2 {
        "2"
    } else if d == 3 {
        "3"
    } else if d == 4 {
        "4"
    } else if d == 5 {
        "5"
    } else if d == 6 {
        "6"
    } else if d == 7 {
        "7"
    } else if d == 8 {
        "8"
    } else {
        "9"
    };
    assert(r@ =~= seq![digit(d as int)]);
    r
}

fn push_digits(n: u64, out: &mut String)
    ensures
        final(out)@ == old(out)@ + digits(n as nat),
    decreases n,
{
    if n >= 10 {
        push_digits(n / 10, out);
    }
    out.append(digit_text(n % 10));
    assert(out@ =~= old(out)@ + digits(n as nat));
}

/// Writes `n` in decimal, as `to_string` does for an integer.
pub fn decimal_string(n: i32) -> (r: String)
    ensures
        r@ == decimal(n as int),
{
    let wide: i64 = n as i64;
    let mut out = String::new();
    if wide < 0 {
        proof {
            reveal_strlit("-");
        }
        out.append("-");
        assert(out@ =~= seq!['-']);
        push_digits((-wide) as u64, &mut out);
    } else {
        push_digits(wide as u64, &mut out);
        assert(out@ =~= digits(n as nat));
    }
    out
}

} // verus!

//! Text: optional strings, concatenation, decimal numerals and the byte order.

use vstd::prelude::*;
use vstd::string::*;

verus! {

/// The characters of an optional string.
pub open spec fn chars_of(text: Option<String>) -> Option<Seq<char>> {
    match text {
        Some(t) => Some(t@),
        None => None,
    }
}

/// An optional string is known by whether it is there and by its characters.
pub proof fn chars_of_tells_all(a: Option<String>, b: Option<String>)
    ensures
        chars_of(a) is Some <==> a is Some,
        a matches Some(t) ==> chars_of(a) == Some(t@),
        chars_of(a) == chars_of(b) <==> match (a, b) {
            (Some(x), Some(y)) => x@ == y@,
            (None, None) => true,
            _ => false,
        },
{
}

/// Whether two optional strings hold the same characters, or are both absent.
pub fn same_text(a: &Option<String>, b: &Option<String>) -> (same: bool)
    ensures
        same == (chars_of(*a) == chars_of(*b)),
        a matches Some(x) ==> (b matches Some(y) ==> same == (x@ == y@)),
        (a is Some) != (b is Some) ==> !same,
        a is None && b is None ==> same,
{
    match (a, b) {
        (Some(x), Some(y)) => *x == *y,
        (None, None) => true,
        _ => false,
    }
}

/// A copy of an optional string.
pub fn copy_text(text: &Option<String>) -> (copy: Option<String>)
    ensures
        chars_of(copy) == chars_of(*text),
        text matches Some(t) ==> (copy matches Some(c) && c@ == t@),
        text is None ==> copy is None,
{
    match text {
        Some(t) => Some(t.clone()),
        None => None,
    }
}

/// Lexicographic order on byte strings: `a` comes strictly before `b`.
pub open spec fn bytes_before(a: Seq<u8>, b: Seq<u8>) -> bool
    decreases a.len(),
{
    if b.len() == 0 {
        false
    } else if a.len() == 0 {
        true
    } else {
        a[0] < b[0] || (a[0] == b[0] && bytes_before(a.drop_first(), b.drop_first()))
    }
}

/// The order of strings, which is the lexicographic order of their UTF-8 bytes.
pub open spec fn text_before(a: Seq<char>, b: Seq<char>) -> bool {
    bytes_before(vstd::utf8::encode_utf8(a), vstd::utf8::encode_utf8(b))
}

/// The first place where two byte strings differ is `k`, and `a` is the lower one
/// there: it has the lower byte, or no byte any more.
pub open spec fn lower_first_at(a: Seq<u8>, b: Seq<u8>, k: int) -> bool {
    &&& 0 <= k <= a.len()
    &&& k < b.len()
    &&& forall|i: int| 0 <= i < k ==> a[i] == b[i]
    &&& k < a.len() ==> a[k] < b[k]
}

/// One byte string comes before another exactly if it is the lower one at the
/// first place where they differ.
pub proof fn bytes_before_is_lexicographic(a: Seq<u8>, b: Seq<u8>)
    ensures
        bytes_before(a, b) <==> exists|k: int| #[trigger] lower_first_at(a, b, k),
    decreases a.len(),
{
    if a.len() == 0 || b.len() == 0 {
        if b.len() > 0 {
            assert(lower_first_at(a, b, 0));
        }
    } else {
        let x = a.drop_first();
        let y = b.drop_first();
        bytes_before_is_lexicographic(x, y);
        if a[0] < b[0] {
            assert(lower_first_at(a, b, 0));
        }
        if a[0] == b[0] && bytes_before(x, y) {
            let k = choose|k: int| #[trigger] lower_first_at(x, y, k);
            assert forall|i: int| 0 <= i < k + 1 implies a[i] == b[i] by {
                if i > 0 {
                    assert(x[i - 1] == y[i - 1]);
                }
            }
            assert(lower_first_at(a, b, k + 1));
        }
        if exists|k: int| #[trigger] lower_first_at(a, b, k) {
            let k = choose|k: int| #[trigger] lower_first_at(a, b, k);
            if k > 0 {
                assert(a[0] == b[0]);
                assert forall|i: int| 0 <= i < k - 1 implies x[i] == y[i] by {
                    assert(a[i + 1] == b[i + 1]);
                }
                assert(lower_first_at(x, y, k - 1));
            }
        }
    }
}

/// No byte string comes before itself.
pub proof fn bytes_before_irreflexive(a: Seq<u8>)
    ensures
        !bytes_before(a, a),
    decreases a.len(),
{
    if a.len() > 0 {
        bytes_before_irreflexive(a.drop_first());
    }
}

/// The byte order is transitive.
pub proof fn bytes_before_transitive(a: Seq<u8>, b: Seq<u8>, c: Seq<u8>)
    requires
        bytes_before(a, b),
        bytes_before(b, c),
    ensures
        bytes_before(a, c),
    decreases a.len(),
{
    if a.len() > 0 && a[0] == b[0] && b[0] == c[0] {
        bytes_before_transitive(a.drop_first(), b.drop_first(), c.drop_first());
    }
}

/// Of two different byte strings one comes before the other.
pub proof fn bytes_before_total(a: Seq<u8>, b: Seq<u8>)
    ensures
        a == b || bytes_before(a, b) || bytes_before(b, a),
    decreases a.len(),
{
    if a.len() > 0 && b.len() > 0 && a[0] == b[0] {
        bytes_before_total(a.drop_first(), b.drop_first());
        if a.drop_first() == b.drop_first() {
            assert(a =~= seq![a[0]] + a.drop_first());
            assert(b =~= seq![b[0]] + b.drop_first());
        }
    } else if a.len() == 0 && b.len() == 0 {
        assert(a =~= b);
    }
}

/// Strings are totally ordered: irreflexive, transitive, and two different
/// strings are never left unordered.
pub proof fn text_before_is_total_order(a: Seq<char>, b: Seq<char>, c: Seq<char>)
    ensures
        !text_before(a, a),
        text_before(a, b) && text_before(b, c) ==> text_before(a, c),
        a == b || text_before(a, b) || text_before(b, a),
{
    let x = vstd::utf8::encode_utf8(a);
    let y = vstd::utf8::encode_utf8(b);
    let z = vstd::utf8::encode_utf8(c);
    bytes_before_irreflexive(x);
    if bytes_before(x, y) && bytes_before(y, z) {
        bytes_before_transitive(x, y, z);
    }
    bytes_before_total(x, y);
    vstd::utf8::encode_utf8_decode_utf8(a);
    vstd::utf8::encode_utf8_decode_utf8(b);
}

/// Whether `a` comes strictly before `b` in the order of strings.
pub fn comes_before(a: &str, b: &str) -> (before: bool)
    ensures
        before == text_before(a@, b@),
        before <==> exists|k: int| #[trigger]
            lower_first_at(vstd::utf8::encode_utf8(a@), vstd::utf8::encode_utf8(b@), k),
{
    proof {
        bytes_before_is_lexicographic(
            vstd::utf8::encode_utf8(a@),
            vstd::utf8::encode_utf8(b@),
        );
    }
    let x = a.as_bytes();
    let y = b.as_bytes();
    let mut i: usize = 0;
    assert(x@.skip(0) =~= x@);
    assert(y@.skip(0) =~= y@);
    while i < x.len() && i < y.len() && x[i] == y[i]
        invariant
            i <= x@.len(),
            i <= y@.len(),
            bytes_before(x@, y@) == bytes_before(x@.skip(i as int), y@.skip(i as int)),
        decreases x@.len() - i,
    {
        assert(x@.skip(i as int).drop_first() =~= x@.skip(i + 1));
        assert(y@.skip(i as int).drop_first() =~= y@.skip(i + 1));
        i = i + 1;
    }
    if i == y.len() {
        false
    } else if i == x.len() {
        true
    } else {
        x[i] < y[i]
    }
}

/// The decimal numeral of a number, without leading zeros.
pub open spec fn numeral(n: nat) -> Seq<char>
    decreases n,
{
    let digit = (('0' as u32) + n % 10) as char;
    if n < 10 {
        seq![digit]
    } else {
        numeral(n / 10).push(digit)
    }
}

/// A numeral is made of digits, begins with a zero only if it is that one digit,
/// and its place values add up to the number.
pub proof fn numeral_reads_back(n: nat)
    ensures
        numeral(n).len() > 0,
        forall|i: int| 0 <= i < numeral(n).len() ==> '0' <= #[trigger] numeral(n)[i] <= '9',
        numeral(n).len() > 1 ==> numeral(n)[0] != '0',
        numeral(n).fold_left(0int, |sum: int, c: char| 10 * sum + (c as int - '0' as int)) == n,
    decreases n,
{
    let value = |sum: int, c: char| 10 * sum + (c as int - '0' as int);
    let text = numeral(n);
    reveal_with_fuel(Seq::fold_left, 2);
    if n < 10 {
        assert(text.drop_last() =~= Seq::empty());
    } else {
        numeral_reads_back(n / 10);
        assert(text.drop_last() =~= numeral(n / 10));
        if n / 10 < 10 {
            assert(numeral(n / 10)[0] != '0');
        } else {
            assert(numeral(n / 10).len() > 1) by {
                numeral_reads_back((n / 10) / 10);
            }
        }
    }
}

/// Writes a number in decimal.
pub fn decimal(n: u32) -> (text: String)
    ensures
        text@ == numeral(n as nat),
        forall|i: int| 0 <= i < text@.len() ==> '0' <= #[trigger] text@[i] <= '9',
        text@.len() > 0,
        text@.len() > 1 ==> text@[0] != '0',
        text@.fold_left(0int, |sum: int, c: char| 10 * sum + (c as int - '0' as int)) == n,
    decreases n,
{
    proof {
        numeral_reads_back(n as nat);
    }
    let digit = digit_text(n % 10);
    if n < 10 {
        digit
    } else {
        let mut text = decimal(n / 10);
        text.append(digit.as_str());
        assert(text@ =~= numeral(n as nat));
        text
    }
}

/// The numeral of a single digit.
fn digit_text(d: u32) -> (text: String)
    requires
        d < 10,
    ensures
        text@ == seq![(('0' as u32) + d) as char],
{
    let text: &str = match d {
        0 => "0",
        1 => "1",
        2 => "2",
        3 => "3",
        4 => "4",
        5 => "5",
        6 => "6",
        7 => "7",
        8 => "8",
        _ => "9",
    };
    proof {
        reveal_strlit("0");
        reveal_strlit("1");
        reveal_strlit("2");
        reveal_strlit("3");
        reveal_strlit("4");
        reveal_strlit("5");
        reveal_strlit("6");
        reveal_strlit("7");
        reveal_strlit("8");
        reveal_strlit("9");
        assert(text@ =~= seq![(('0' as u32) + d) as char]);
    }
    text.to_string()
}

} // verus!

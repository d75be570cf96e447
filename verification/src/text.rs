//! Building text: decimal numbers, joins and comparisons, with their results
//! as sequences of characters.

use vstd::prelude::*;

verus! {

/// The character of a decimal digit.
pub open spec fn digit_char(d: nat) -> char {
    (48 + d) as char
}

/// A number written in decimal, without leading zeros.
pub open spec fn decimal(n: nat) -> Seq<char>
    decreases n,
{
    if n < 10 {
        seq![digit_char(n)]
    } else {
        decimal(n / 10).push(digit_char(n % 10))
    }
}

/// The decimal digit `d` as text.
fn digit_text(d: usize) -> (r: &'static str)
    requires
        d < 10,
    ensures
        r@ == seq![digit_char(d as nat)],
{
    proof {
        reveal_strlit("0");
        reveal_strlit("1");
        reveal_strlit("2");
        reveal_strlit("3");
        reveal_strlit("4");
        reveal_strlit("5");
        reveal_strlit("6");
        reveal_strlit("7");
        reveal_strlit("8");
        reveal_strlit("9");
    }
    let r: &'static str = if d == 0 {
        "0"
    } else if d == 1 {
        "1"
    } else if d == 2 {
        "2"
    } else if d == 3 {
        "3"
    } else if d == 4 {
        "4"
    } else if d == 5 {
        "5"
    } else if d == 6 {
        "6"
    } else if d == 7 {
        "7"
    } else if d == 8 {
        "8"
    } else {
        "9"
    };
    assert(r@ =~= seq![digit_char(d as nat)]);
    r
}

/// Appends `n` in decimal.
pub fn push_decimal(out: &mut String, n: usize)
    ensures
        final(out)@ == old(out)@ + decimal(n as nat),
    decreases n,
{
    if n >= 10 {
        push_decimal(out, n / 10);
    }
    out.append(digit_text(n % 10));
    proof {
        let head = if n >= 10 { decimal(n as nat / 10) } else { Seq::<char>::empty() };
        assert(decimal(n as nat) =~= head + seq![digit_char(n as nat % 10)]);
        assert(old(out)@ + decimal(n as nat) =~= (old(out)@ + head) + seq![
            digit_char(n as nat % 10),
        ]);
    }
}

/// A signed number written in decimal.
pub open spec fn signed_decimal(n: int) -> Seq<char> {
    if n < 0 {
        "-"@ + decimal((-n) as nat)
    } else {
        decimal(n as nat)
    }
}

/// Appends a signed number in decimal.
pub fn push_signed(out: &mut String, n: i32)
    ensures
        final(out)@ == old(out)@ + signed_decimal(n as int),
{
    if n < 0 {
        out.append("-");
        let magnitude: i64 = 0 - (n as i64);
        push_decimal(out, magnitude as usize);
        assert(out@ =~= old(out)@ + signed_decimal(n as int));
    } else {
        push_decimal(out, n as usize);
    }
}

/// Numbers joined by a comma and a space.
pub open spec fn joined(items: Seq<usize>) -> Seq<char>
    decreases items.len(),
{
    if items.len() == 0 {
        Seq::empty()
    } else if items.len() == 1 {
        decimal(items[0] as nat)
    } else {
        joined(items.drop_last()) + ", "@ + decimal(items.last() as nat)
    }
}

/// A list of numbers between square brackets.
pub open spec fn list_text(items: Seq<usize>) -> Seq<char> {
    "["@ + joined(items) + "]"@
}

/// Appends a list of numbers between square brackets.
pub fn push_list(out: &mut String, items: &Vec<usize>)
    ensures
        final(out)@ == old(out)@ + list_text(items@),
{
    out.append("[");
    let n: usize = items.len();
    let mut i: usize = 0;
    let ghost base = out@;
    assert(items@.take(0) =~= Seq::<usize>::empty());
    assert(base + joined(items@.take(0)) =~= base);
    while i < n
        invariant
            i <= n == items@.len(),
            out@ == base + joined(items@.take(i as int)),
        decreases n - i,
    {
        if i > 0 {
            out.append(", ");
        }
        push_decimal(out, items[i]);
        proof {
            let longer = items@.take(i + 1);
            assert(longer.drop_last() =~= items@.take(i as int));
            assert(longer.last() == items@[i as int]);
            if i == 0 {
                assert(out@ =~= base + joined(longer));
            } else {
                assert(base + joined(longer) =~= base + joined(items@.take(i as int)) + ", "@
                    + decimal(items@[i as int] as nat));
            }
        }
        i += 1;
    }
    out.append("]");
    proof {
        assert(items@.take(n as int) =~= items@);
        assert(out@ =~= old(out)@ + list_text(items@));
    }
}

/// A text `n` times in a row.
pub open spec fn repeated(s: Seq<char>, n: nat) -> Seq<char>
    decreases n,
{
    if n == 0 {
        Seq::empty()
    } else {
        repeated(s, (n - 1) as nat) + s
    }
}

/// A text `n` times in a row.
pub fn repeat(s: &str, n: usize) -> (r: String)
    ensures
        r@ == repeated(s@, n as nat),
{
    let mut r: String = String::new();
    let mut i: usize = 0;
    assert(r@ =~= Seq::<char>::empty());
    while i < n
        invariant
            i <= n,
            r@ == repeated(s@, i as nat),
        decreases n - i,
    {
        r.append(s);
        i += 1;
    }
    r
}

/// Whether two texts hold the same characters.
pub fn same_text(a: &str, b: &str) -> (r: bool)
    ensures
        r == (a@ == b@),
{
    a.to_owned() == b.to_owned()
}

/// The number that decimal digits stand for.
pub open spec fn number_of(digits: Seq<char>) -> int
    decreases digits.len(),
{
    if digits.len() == 0 {
        0
    } else {
        number_of(digits.drop_last()) * 10 + (digits.last() as int - 48)
    }
}

/// A number in decimal reads back, is made of digits, and has no leading zero.
pub proof fn law_decimal_reads_back(n: nat)
    ensures
        number_of(decimal(n)) == n,
        decimal(n).len() > 0,
        forall|i: int| 0 <= i < decimal(n).len() ==> '0' <= #[trigger] decimal(n)[i] <= '9',
        n > 0 ==> decimal(n)[0] != '0',
    decreases n,
{
    if n >= 10 {
        law_decimal_reads_back(n / 10);
        let (head, d) = (decimal(n / 10), digit_char(n % 10));
        assert(decimal(n) == head.push(d));
        assert(head.push(d).drop_last() =~= head);
        assert forall|i: int| 0 <= i < decimal(n).len() implies '0' <= #[trigger] decimal(n)[i]
            <= '9' by {
            if i < head.len() {
                assert(decimal(n)[i] == head[i]);
            }
        }
    } else {
        let s = decimal(n);
        assert(s =~= seq![digit_char(n)]);
        assert(s.drop_last() =~= Seq::<char>::empty());
        assert(number_of(s.drop_last()) == 0);
    }
}

/// A list of texts in a row is as long as its parts together, and each stands in its place.
pub proof fn law_repeated_text_is_periodic(s: Seq<char>, n: nat, i: int)
    requires
        0 <= i < repeated(s, n).len(),
    ensures
        repeated(s, n).len() == n * s.len(),
        repeated(s, n)[i] == s[i % (s.len() as int)],
    decreases n,
{
    let head = repeated(s, (n - 1) as nat);
    lemma_repeated_len(s, n);
    lemma_repeated_len(s, (n - 1) as nat);
    if i < head.len() {
        law_repeated_text_is_periodic(s, (n - 1) as nat, i);
    } else {
        let m = s.len() as int;
        let a = n - 1;
        crate::axes::lemma_digits(a, i - head.len(), m);
    }
}

proof fn lemma_repeated_len(s: Seq<char>, n: nat)
    ensures
        repeated(s, n).len() == n * s.len(),
    decreases n,
{
    if n > 0 {
        lemma_repeated_len(s, (n - 1) as nat);
        let m = s.len() as int;
        assert((n - 1) * m + m == n * m) by (nonlinear_arith);
    } else {
        assert(0 * s.len() == 0) by (nonlinear_arith);
    }
}

/// The items of two lists in a row are joined as those of each are, with a comma between; a list of
/// one item is the item. A list is shown between brackets.
pub proof fn law_lists_are_joined_by_commas(a: Seq<usize>, b: Seq<usize>, n: usize)
    requires
        a.len() > 0,
        b.len() > 0,
    ensures
        joined(a + b) == joined(a) + ", "@ + joined(b),
        joined(seq![n]) == decimal(n as nat),
        list_text(a).len() == joined(a).len() + 2,
        list_text(a).first() == '[' && list_text(a).last() == ']',
        list_text(a).subrange(1, list_text(a).len() - 1) == joined(a),
    decreases b.len(),
{
    reveal_strlit("[");
    reveal_strlit("]");
    reveal_strlit(", ");
    assert(list_text(a).subrange(1, list_text(a).len() - 1) =~= joined(a));
    assert(seq![n].drop_last() =~= Seq::<usize>::empty());
    assert(joined(seq![n]) =~= decimal(n as nat));
    if b.len() == 1 {
        assert((a + b).drop_last() =~= a);
        assert(b =~= seq![b[0]]);
        assert(seq![b[0]].drop_last() =~= Seq::<usize>::empty());
        assert(joined(b) =~= decimal(b[0] as nat));
        assert(joined(a + b) =~= joined(a) + ", "@ + joined(b));
    } else {
        law_lists_are_joined_by_commas(a, b.drop_last(), n);
        assert((a + b).drop_last() =~= a + b.drop_last());
        assert(joined(a + b) =~= joined(a) + ", "@ + joined(b));
    }
}

/// A negative number is a dash and what it is without; any other is written as it is.
pub proof fn law_signs_are_written_in_front(n: nat)
    requires
        n > 0,
    ensures
        signed_decimal(n as int) == decimal(n),
        signed_decimal(-(n as int)).len() == decimal(n).len() + 1,
        signed_decimal(-(n as int))[0] == '-',
        signed_decimal(-(n as int)).skip(1) == decimal(n),
{
    reveal_strlit("-");
    assert(signed_decimal(-(n as int)).skip(1) =~= decimal(n));
}

} // verus!

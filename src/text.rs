//! Rendering multivectors as text.
use vstd::prelude::*;
use crate::blade::{bit, spec_mask_of, mask_of};
use crate::multivector::{R300, lemma_view};

verus! {

/// The character of the decimal digit `d`.
pub open spec fn digit_char(d: int) -> char {
    if d == 0 {
        '0'
    } else if d == 1 {
        '1'
    } else if d == 2 {
        '2'
    } else if d == 3 {
        '3'
    } else if d == 4 {
        '4'
    } else if d == 5 {
        '5'
    } else if d == 6 {
        '6'
    } else if d == 7 {
        '7'
    } else if d == 8 {
        '8'
    } else {
        '9'
    }
}

/// The decimal digits of `n`, most significant first.
pub open spec fn digits(n: nat) -> Seq<char>
    decreases n,
{
    if n < 10 {
        seq![digit_char(n as int)]
    } else {
        digits(n / 10) + seq![digit_char((n % 10) as int)]
    }
}

/// `n` in decimal, with a leading `-` when it is negative.
pub open spec fn decimal(n: int) -> Seq<char> {
    if n < 0 {
        seq!['-'] + digits((-n) as nat)
    } else {
        digits(n as nat)
    }
}

/// The name of the blade at index `k` as a suffix: empty for the blade 1,
/// else `e` followed by the indices of its factors.
pub open spec fn blade_suffix(k: int) -> Seq<char> {
    let m = spec_mask_of(k);
    if k == 0 {
        Seq::empty()
    } else {
        seq!['e'] + (if bit(m, 0) == 1 {
            seq!['1']
        } else {
            Seq::empty()
        }) + (if bit(m, 1) == 1 {
            seq!['2']
        } else {
            Seq::empty()
        }) + (if bit(m, 2) == 1 {
            seq!['3']
        } else {
            Seq::empty()
        })
    }
}

/// The rendered terms of the nonzero coefficients among the first `n`.
pub open spec fn terms(a: Seq<int>, n: nat) -> Seq<Seq<char>>
    decreases n,
{
    if n == 0 {
        Seq::empty()
    } else {
        let rest = terms(a, (n - 1) as nat);
        if a[n - 1] != 0 {
            rest.push(decimal(a[n - 1]) + blade_suffix(n - 1))
        } else {
            rest
        }
    }
}

/// The pieces joined with `" + "` between each two.
pub open spec fn join(pieces: Seq<Seq<char>>) -> Seq<char>
    decreases pieces.len(),
{
    if pieces.len() == 0 {
        Seq::empty()
    } else if pieces.len() == 1 {
        pieces[0]
    } else {
        join(pieces.drop_last()) + seq![' ', '+', ' '] + pieces.last()
    }
}

/// The text of a multivector: its nonzero terms joined with `" + "`, or `"0"`.
pub open spec fn spec_display(a: Seq<int>) -> Seq<char> {
    if terms(a, 8).len() == 0 {
        seq!['0']
    } else {
        join(terms(a, 8))
    }
}

fn push_digit(out: &mut Vec<char>, d: u64)
    requires
        d < 10,
    ensures
        final(out)@ == old(out)@.push(digit_char(d as int)),
{
    let c = if d == 0 {
        '0'
    } else if d == 1 {
        '1'
    } else if d == 2 {
        '2'
    } else if d == 3 {
        '3'
    } else if d == 4 {
        '4'
    } else if d == 5 {
        '5'
    } else if d == 6 {
        '6'
    } else if d == 7 {
        '7'
    } else if d == 8 {
        '8'
    } else {
        '9'
    };
    out.push(c);
}

fn push_digits(out: &mut Vec<char>, n: u64)
    ensures
        final(out)@ == old(out)@ + digits(n as nat),
    decreases n,
{
    if n < 10 {
        push_digit(out, n);
        assert(final(out)@ =~= old(out)@ + digits(n as nat));
    } else {
        push_digits(out, n / 10);
        push_digit(out, n % 10);
        assert(final(out)@ =~= old(out)@ + digits(n as nat));
    }
}

fn push_decimal(out: &mut Vec<char>, n: i64)
    ensures
        final(out)@ == old(out)@ + decimal(n as int),
{
    if n < 0 {
        out.push('-');
        let magnitude = (0 - (n as i128)) as u64;
        push_digits(out, magnitude);
        assert(final(out)@ =~= old(out)@ + decimal(n as int));
    } else {
        push_digits(out, n as u64);
    }
}

fn push_suffix(out: &mut Vec<char>, k: usize)
    requires
        k < 8,
    ensures
        final(out)@ == old(out)@ + blade_suffix(k as int),
{
    if k == 0 {
        assert(final(out)@ =~= old(out)@ + blade_suffix(k as int));
    } else {
        let m = mask_of(k);
        out.push('e');
        if m % 2 == 1 {
            out.push('1');
        }
        if (m / 2) % 2 == 1 {
            out.push('2');
        }
        if (m / 4) % 2 == 1 {
            out.push('3');
        }
        assert(final(out)@ =~= old(out)@ + blade_suffix(k as int));
    }
}

/// Relies on `String`'s `FromIterator<char>`: the string holds the characters in order.
#[verifier::external_body]
fn string_from_chars(chars: Vec<char>) -> (r: String)
    ensures
        r@ == chars@,
{
    chars.into_iter().collect()
}

impl R300 {
    /// The nonzero coefficients, each followed by the name of its blade (none
    /// for the blade 1), joined with `" + "`; `"0"` when every coefficient is 0.
    pub fn display(&self) -> (r: String)
        ensures
            r@ == spec_display(self@),
    {
        proof {
            lemma_view(*self);
        }
        let mut out: Vec<char> = Vec::new();
        let mut count: usize = 0;
        let mut k: usize = 0;
        while k < 8
            invariant
                k <= 8,
                count <= k,
                count == terms(self@, k as nat).len(),
                out@ == join(terms(self@, k as nat)),
                forall|j: int| 0 <= j < 8 ==> #[trigger] self@[j] == self.mvec[j] as int,
            decreases 8 - k,
        {
            let c = self.mvec[k];
            if c != 0 {
                let ghost before = terms(self@, k as nat);
                if count > 0 {
                    out.push(' ');
                    out.push('+');
                    out.push(' ');
                }
                let ghost start = out@;
                push_decimal(&mut out, c);
                push_suffix(&mut out, k);
                proof {
                    let t = decimal(c as int) + blade_suffix(k as int);
                    let after = terms(self@, (k + 1) as nat);
                    assert(after == before.push(t));
                    assert(after.drop_last() =~= before);
                    assert(out@ =~= start + t);
                    if count > 0 {
                        assert(out@ =~= join(before) + seq![' ', '+', ' '] + t);
                    } else {
                        assert(before.len() == 0);
                        assert(out@ =~= t);
                    }
                }
                count = count + 1;
            }
            k = k + 1;
        }
        if count == 0 {
            out.push('0');
            assert(out@ =~= seq!['0']);
        }
        string_from_chars(out)
    }
}

} // verus!

//! Decimal numbers and joined lists as text.

use vstd::prelude::*;

verus! {

/// The decimal digit `d` (0 to 9) as text.
pub open spec fn digit_text(d: nat) -> Seq<char> {
    if d == 0 {
        "0"@
    } else if d == 1 {
        "1"@
    } else if d == 2 {
        "2"@
    } else if d == 3 {
        "3"@
    } else if d == 4 {
        "4"@
    } else if d == 5 {
        "5"@
    } else if d == 6 {
        "6"@
    } else if d == 7 {
        "7"@
    } else if d == 8 {
        "8"@
    } else {
        "9"@
    }
}

/// The decimal notation of `n`, without leading zeros.
pub open spec fn decimal(n: nat) -> Seq<char>
    decreases n,
{
    if n < 10 {
        digit_text(n)
    } else {
        decimal(n / 10) + digit_text(n % 10)
    }
}

/// The pieces in `parts`, with `sep` between each two neighbours.
pub open spec fn join(parts: Seq<Seq<char>>, sep: Seq<char>) -> Seq<char>
    decreases parts.len(),
{
    if parts.len() == 0 {
        Seq::empty()
    } else if parts.len() == 1 {
        parts[0]
    } else {
        join(parts.drop_last(), sep) + sep + parts.last()
    }
}

fn push_digit(s: &mut String, d: u64)
    requires
        d < 10,
    ensures
        final(s)@ == old(s)@ + digit_text(d as nat),
{
    if d == 0 {
        s.append("0");
    } else if d == 1 {
        s.append("1");
    } else if d == 2 {
        s.append("2");
    } else if d == 3 {
        s.append("3");
    } else if d == 4 {
        s.append("4");
    } else if d == 5 {
        s.append("5");
    } else if d == 6 {
        s.append("6");
    } else if d == 7 {
        s.append("7");
    } else if d == 8 {
        s.append("8");
    } else {
        s.append("9");
    }
}

/// Appends the decimal notation of `n` to `s`.
pub fn push_decimal(s: &mut String, n: u64)
    ensures
        final(s)@ == old(s)@ + decimal(n as nat),
    decreases n,
{
    if n < 10 {
        push_digit(s, n);
    } else {
        push_decimal(s, n / 10);
        push_digit(s, n % 10);
        assert(decimal(n as nat) == decimal((n / 10) as nat) + digit_text((n % 10) as nat));
    }
}

/// Appends the pieces of `parts` to `s`, with `sep` between each two
/// neighbours.
pub fn push_joined(s: &mut String, parts: &Vec<String>, sep: &str)
    ensures
        final(s)@ == old(s)@ + join(parts@.map_values(|p: String| p@), sep@),
{
    let ghost views = parts@.map_values(|p: String| p@);
    let ghost start = s@;
    let mut k: usize = 0;
    while k < parts.len()
        invariant
            k <= parts.len(),
            views == parts@.map_values(|p: String| p@),
            s@ == start + join(views.take(k as int), sep@),
        decreases parts.len() - k,
    {
        if k > 0 {
            s.append(sep);
        }
        s.append(parts[k].as_str());
        proof {
            let t = views.take(k + 1);
            assert(t.drop_last() =~= views.take(k as int));
            assert(t.last() == parts@[k as int]@);
            if k == 0 {
                assert(views.take(0) =~= Seq::<Seq<char>>::empty());
            }
        }
        k = k + 1;
    }
    assert(views.take(parts.len() as int) =~= views);
}

} // verus!

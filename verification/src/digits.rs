use vstd::prelude::*;

verus! {

/// The decimal digits of `n` as ASCII bytes, most significant first, with
/// no leading zeros (a single `0` for zero).
pub open spec fn decimal(n: nat) -> Seq<u8>
    decreases n,
{
    if n < 10 {
        seq![(48 + n) as u8]
    } else {
        decimal(n / 10).push((48 + n % 10) as u8)
    }
}

/// `n` in decimal padded with zeros to at least two digits, as `{:02}`
/// formats it.
pub open spec fn two_digits(n: nat) -> Seq<u8> {
    if n < 10 {
        seq![48u8].add(decimal(n))
    } else {
        decimal(n)
    }
}

/// `n` in decimal padded with zeros to at least four digits, as `{:04}`
/// formats it.
pub open spec fn four_digits(n: nat) -> Seq<u8> {
    let d = decimal(n);
    if d.len() < 4 {
        Seq::new((4 - d.len()) as nat, |i: int| 48u8).add(d)
    } else {
        d
    }
}

/// `year-month-day` as `{:04}-{:02}-{:02}` formats it.
pub open spec fn date_bytes(year: nat, month: nat, day: nat) -> Seq<u8> {
    four_digits(year).push(45u8).add(two_digits(month)).push(45u8).add(two_digits(day))
}

/// The numbers joined by colons, each at least two digits: `hh:mm` or
/// `hh:mm:ss`.
pub open spec fn clock_bytes(parts: Seq<nat>) -> Seq<u8>
    decreases parts.len(),
{
    if parts.len() == 0 {
        Seq::empty()
    } else if parts.len() == 1 {
        two_digits(parts[0])
    } else {
        clock_bytes(parts.drop_last()).push(58u8).add(two_digits(parts.last()))
    }
}

/// The first `cap` bytes of `s` (all of it when shorter): what fits in a
/// buffer of `cap` bytes.
pub open spec fn clipped(s: Seq<u8>, cap: nat) -> Seq<u8> {
    if s.len() <= cap {
        s
    } else {
        s.take(cap as int)
    }
}

/// Appends the decimal digits of `n`.
pub fn push_decimal(buf: &mut Vec<u8>, n: u32)
    ensures
        final(buf)@ == old(buf)@ + decimal(n as nat),
    decreases n,
{
    if n >= 10 {
        push_decimal(buf, n / 10);
    }
    buf.push(48 + (n % 10) as u8);
    proof {
        if n >= 10 {
            assert(decimal(n as nat) == decimal((n / 10) as nat).push((48 + n % 10) as u8));
        }
    }
    assert(buf@ =~= old(buf)@ + decimal(n as nat));
}

/// Appends `n` padded with zeros to two digits.
pub fn push_two_digits(buf: &mut Vec<u8>, n: u32)
    ensures
        final(buf)@ == old(buf)@ + two_digits(n as nat),
{
    if n < 10 {
        buf.push(48);
    }
    push_decimal(buf, n);
    assert(buf@ =~= old(buf)@ + two_digits(n as nat));
}

/// Appends `n` padded with zeros to four digits.
pub fn push_four_digits(buf: &mut Vec<u8>, n: u32)
    ensures
        final(buf)@ == old(buf)@ + four_digits(n as nat),
{
    proof {
        lemma_decimal_len(n as nat);
    }
    let pad: usize = if n < 10 {
        3
    } else if n < 100 {
        2
    } else if n < 1000 {
        1
    } else {
        0
    };
    let mut i: usize = 0;
    while i < pad
        invariant
            i <= pad <= 3,
            buf@ == old(buf)@ + Seq::new(i as nat, |k: int| 48u8),
        decreases pad - i,
    {
        buf.push(48);
        i = i + 1;
        assert(buf@ =~= old(buf)@ + Seq::new(i as nat, |k: int| 48u8));
    }
    push_decimal(buf, n);
    assert(buf@ =~= old(buf)@ + four_digits(n as nat));
}

/// How many digits `decimal(n)` has, for the numbers below 10000.
pub proof fn lemma_decimal_len(n: nat)
    ensures
        n < 10 ==> decimal(n).len() == 1,
        10 <= n < 100 ==> decimal(n).len() == 2,
        100 <= n < 1000 ==> decimal(n).len() == 3,
        1000 <= n ==> decimal(n).len() >= 4,
    decreases n,
{
    if n >= 10 {
        lemma_decimal_len(n / 10);
    }
}

/// `year-month-day` as `{:04}-{:02}-{:02}`, clipped to `cap` bytes.
pub fn date_text(year: u32, month: u32, day: u32, cap: usize) -> (t: Vec<u8>)
    ensures
        t@ == clipped(date_bytes(year as nat, month as nat, day as nat), cap as nat),
{
    let mut t: Vec<u8> = Vec::new();
    push_four_digits(&mut t, year);
    t.push(45);
    push_two_digits(&mut t, month);
    t.push(45);
    push_two_digits(&mut t, day);
    assert(t@ =~= date_bytes(year as nat, month as nat, day as nat));
    clip(t, cap)
}

/// `h:m` with each number at least two digits, clipped to `cap` bytes.
pub fn hours_minutes(h: u32, m: u32, cap: usize) -> (t: Vec<u8>)
    ensures
        t@ == clipped(clock_bytes(seq![h as nat, m as nat]), cap as nat),
{
    let mut t: Vec<u8> = Vec::new();
    push_two_digits(&mut t, h);
    t.push(58);
    push_two_digits(&mut t, m);
    let ghost parts = seq![h as nat, m as nat];
    assert(parts.drop_last() =~= seq![h as nat]);
    assert(clock_bytes(seq![h as nat]) == two_digits(h as nat));
    assert(clock_bytes(parts) == clock_bytes(seq![h as nat]).push(58u8).add(two_digits(m as nat)));
    assert(t@ =~= clock_bytes(parts));
    clip(t, cap)
}

/// `h:m:s` with each number at least two digits, clipped to `cap` bytes.
pub fn hours_minutes_seconds(h: u32, m: u32, s: u32, cap: usize) -> (t: Vec<u8>)
    ensures
        t@ == clipped(clock_bytes(seq![h as nat, m as nat, s as nat]), cap as nat),
{
    let mut t: Vec<u8> = Vec::new();
    push_two_digits(&mut t, h);
    t.push(58);
    push_two_digits(&mut t, m);
    t.push(58);
    push_two_digits(&mut t, s);
    let ghost parts = seq![h as nat, m as nat, s as nat];
    let ghost hm = seq![h as nat, m as nat];
    assert(parts.drop_last() =~= hm);
    assert(hm.drop_last() =~= seq![h as nat]);
    assert(clock_bytes(seq![h as nat]) == two_digits(h as nat));
    assert(clock_bytes(hm) == clock_bytes(seq![h as nat]).push(58u8).add(two_digits(m as nat)));
    assert(clock_bytes(parts) == clock_bytes(hm).push(58u8).add(two_digits(s as nat)));
    assert(t@ =~= clock_bytes(parts));
    clip(t, cap)
}

/// The first `cap` bytes of `t`.
fn clip(t: Vec<u8>, cap: usize) -> (r: Vec<u8>)
    ensures
        r@ == clipped(t@, cap as nat),
{
    if t.len() <= cap {
        t
    } else {
        let mut r: Vec<u8> = Vec::new();
        let mut i: usize = 0;
        while i < cap
            invariant
                i <= cap < t.len(),
                r@ == t@.take(i as int),
            decreases cap - i,
        {
            r.push(t[i]);
            i = i + 1;
            assert(r@ =~= t@.take(i as int));
        }
        r
    }
}

} // verus!

//! The latency log: one decimal value per line, newline after each.
use vstd::prelude::*;

verus! {

/// The newline byte.
pub const NEWLINE: u8 = 10;

/// The ASCII digits of `n`, most significant first, without leading zeros.
pub open spec fn decimal(n: nat) -> Seq<u8>
    decreases n,
{
    if n < 10 {
        seq![(48 + n) as u8]
    } else {
        decimal(n / 10).push((48 + n % 10) as u8)
    }
}

/// The number that a string of ASCII digits spells.
pub open spec fn digits_value(d: Seq<u8>) -> nat
    decreases d.len(),
{
    if d.len() == 0 {
        0
    } else {
        digits_value(d.drop_last()) * 10 + (d.last() - 48) as nat
    }
}

/// Whether `c` is an ASCII digit.
pub open spec fn is_digit(c: u8) -> bool {
    48 <= c <= 57
}

/// The log for `samples`: each value's digits followed by a newline.
pub open spec fn log_bytes(samples: Seq<u64>) -> Seq<u8>
    decreases samples.len(),
{
    if samples.len() == 0 {
        Seq::empty()
    } else {
        log_bytes(samples.drop_last()) + decimal(samples.last() as nat).push(NEWLINE)
    }
}

/// How many newline bytes `b` holds.
pub open spec fn newline_count(b: Seq<u8>) -> nat
    decreases b.len(),
{
    if b.len() == 0 {
        0
    } else {
        newline_count(b.drop_last()) + if b.last() == NEWLINE {
            1nat
        } else {
            0nat
        }
    }
}

proof fn lemma_decimal(n: nat)
    ensures
        decimal(n).len() > 0,
        forall|i: int| 0 <= i < decimal(n).len() ==> is_digit(#[trigger] decimal(n)[i]),
        digits_value(decimal(n)) == n,
        newline_count(decimal(n)) == 0,
    decreases n,
{
    let d = decimal(n);
    assert(48 + n % 10 < 256);
    assert(d.last() == (48 + n % 10) as u8);
    assert(d.last() - 48 == n % 10);
    if n >= 10 {
        lemma_decimal(n / 10);
        assert(d.drop_last() =~= decimal(n / 10));
        assert(n == (n / 10) * 10 + n % 10);
    } else {
        assert(d.drop_last() =~= Seq::<u8>::empty());
        assert(digits_value(d.drop_last()) == 0);
        assert(newline_count(d.drop_last()) == 0);
    }
}

proof fn lemma_newline_count_append(a: Seq<u8>, b: Seq<u8>)
    ensures
        newline_count(a + b) == newline_count(a) + newline_count(b),
    decreases b.len(),
{
    if b.len() > 0 {
        lemma_newline_count_append(a, b.drop_last());
        assert((a + b).drop_last() =~= a + b.drop_last());
    } else {
        assert(a + b =~= a);
    }
}

/// The log holds exactly one line per sample: as many newlines as samples,
/// nothing but digits and newlines, a newline at the end of a non-empty log,
/// and no empty line; every sample's digits read back as the sample.
pub proof fn log_has_one_line_per_sample(samples: Seq<u64>)
    ensures
        newline_count(log_bytes(samples)) == samples.len(),
        forall|i: int|
            0 <= i < log_bytes(samples).len() ==> is_digit(#[trigger] log_bytes(samples)[i])
                || log_bytes(samples)[i] == NEWLINE,
        samples.len() > 0 ==> log_bytes(samples).last() == NEWLINE,
        forall|i: int|
            0 <= i < log_bytes(samples).len() && #[trigger] log_bytes(samples)[i] == NEWLINE
                ==> i > 0 && is_digit(log_bytes(samples)[i - 1]),
        forall|k: int|
            0 <= k < samples.len() ==> digits_value(decimal(#[trigger] samples[k] as nat))
                == samples[k],
    decreases samples.len(),
{
    assert forall|k: int| 0 <= k < samples.len() implies digits_value(
        decimal(#[trigger] samples[k] as nat),
    ) == samples[k] by {
        lemma_decimal(samples[k] as nat);
    }
    if samples.len() > 0 {
        let p = samples.drop_last();
        log_has_one_line_per_sample(p);
        let d = decimal(samples.last() as nat);
        lemma_decimal(samples.last() as nat);
        let line = d.push(NEWLINE);
        assert(line.drop_last() =~= d);
        lemma_newline_count_append(log_bytes(p), line);
        let l = log_bytes(samples);
        assert(l =~= log_bytes(p) + line);
        assert forall|i: int| 0 <= i < l.len() && #[trigger] l[i] == NEWLINE implies i > 0
            && is_digit(l[i - 1]) by {
            if i >= log_bytes(p).len() {
                let j = i - log_bytes(p).len();
                if j < d.len() {
                    assert(is_digit(d[j]));
                } else {
                    assert(is_digit(d[j - 1]));
                }
            }
        }
        assert forall|i: int| 0 <= i < l.len() implies is_digit(#[trigger] l[i]) || l[i]
            == NEWLINE by {
            if i >= log_bytes(p).len() {
                let j = i - log_bytes(p).len();
                if j < d.len() {
                    assert(is_digit(d[j]));
                }
            }
        }
    }
}

/// Appends the decimal digits of `n` to `out`.
fn push_decimal(out: &mut Vec<u8>, n: u64)
    ensures
        final(out)@ == old(out)@ + decimal(n as nat),
    decreases n,
{
    if n >= 10 {
        push_decimal(out, n / 10);
    }
    out.push(48 + (n % 10) as u8);
    proof {
        assert(final(out)@ =~= old(out)@ + decimal(n as nat));
    }
}

/// Renders `samples` as the log: each value in decimal, one per line, in
/// order, each line ending in a newline.
pub fn render_log(samples: &[u64]) -> (r: Vec<u8>)
    ensures
        r@ == log_bytes(samples@),
{
    let mut out: Vec<u8> = Vec::new();
    let mut i: usize = 0;
    while i < samples.len()
        invariant
            i <= samples@.len(),
            out@ == log_bytes(samples@.subrange(0, i as int)),
        decreases samples@.len() - i,
    {
        proof {
            assert(samples@.subrange(0, i + 1).drop_last() =~= samples@.subrange(0, i as int));
        }
        push_decimal(&mut out, samples[i]);
        out.push(NEWLINE);
        proof {
            assert(out@ =~= log_bytes(samples@.subrange(0, i + 1)));
        }
        i = i + 1;
    }
    proof {
        assert(samples@.subrange(0, i as int) =~= samples@);
    }
    out
}

} // verus!

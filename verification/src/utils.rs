//! Small helpers: the screen clearing command, sums, digit grouping and the unit that a short
//! number display uses.
use vstd::prelude::*;
use vstd::string::*;
use crate::text::{decimal, decimal_string, push_char};

verus! {

/// What clears the screen: a few newlines on Windows, the `clear` command elsewhere.
pub fn clear_command(is_windows: bool) -> (r: String)
    ensures
        r@ == (if is_windows {
            "\n\n\n"@
        } else {
            "clear"@
        }),
{
    if is_windows {
        String::from_str("\n\n\n")
    } else {
        String::from_str("clear")
    }
}

/// The sum of a sequence of numbers.
pub open spec fn seq_sum(s: Seq<u64>) -> nat
    decreases s.len(),
{
    if s.len() == 0 {
        0
    } else {
        seq_sum(s.drop_last()) + s.last() as nat
    }
}

proof fn lemma_seq_sum_prefix(s: Seq<u64>, i: int)
    requires
        0 <= i <= s.len(),
    ensures
        seq_sum(s.take(i)) <= seq_sum(s),
    decreases s.len() - i,
{
    if i < s.len() {
        lemma_seq_sum_prefix(s, i + 1);
        assert(s.take(i + 1).drop_last() == s.take(i));
    } else {
        assert(s.take(i) == s);
    }
}

/// The sum of the values; the sum must fit in a `u64`, as adding up in `u64` requires.
pub fn sum(values: &[u64]) -> (r: u64)
    requires
        seq_sum(values@) <= u64::MAX,
    ensures
        r == seq_sum(values@),
{
    let n = values.len();
    let mut total: u64 = 0;
    let mut i: usize = 0;
    while i < n
        invariant
            n == values@.len(),
            i <= n,
            seq_sum(values@) <= u64::MAX,
            total == seq_sum(values@.take(i as int)),
        decreases n - i,
    {
        proof {
            assert(values@.take(i + 1).drop_last() == values@.take(i as int));
            lemma_seq_sum_prefix(values@, i + 1);
        }
        total = total + values[i];
        i = i + 1;
    }
    proof {
        assert(values@.take(n as int) == values@);
    }
    total
}

/// Digits grouped in threes from the right, the groups separated by commas.
pub open spec fn grouped(d: Seq<char>) -> Seq<char>
    decreases d.len(),
{
    if d.len() <= 3 {
        d
    } else {
        grouped(d.take(d.len() - 3)) + seq![','] + d.skip(d.len() - 3)
    }
}

fn push_grouped(out: &mut String, digits: &str, end: usize)
    requires
        end <= digits@.len(),
    ensures
        final(out)@ == old(out)@ + grouped(digits@.take(end as int)),
    decreases end,
{
    let ghost d = digits@.take(end as int);
    let start: usize = if end <= 3 {
        0
    } else {
        push_grouped(out, digits, end - 3);
        push_char(out, ',');
        proof {
            assert(d.take(d.len() - 3) == digits@.take(end - 3));
        }
        end - 3
    };
    let ghost base = out@;
    let mut i: usize = start;
    while i < end
        invariant
            start <= i <= end,
            end <= digits@.len(),
            out@ == base + digits@.subrange(start as int, i as int),
        decreases end - i,
    {
        let c = digits.get_char(i);
        push_char(out, c);
        proof {
            assert(digits@.subrange(start as int, i + 1) == digits@.subrange(start as int, i as int).push(c));
        }
        i = i + 1;
    }
    proof {
        if end <= 3 {
            assert(digits@.subrange(0, end as int) == d);
        } else {
            assert(digits@.subrange(start as int, end as int) == d.skip(d.len() - 3));
        }
    }
}

/// A number with its digits grouped in threes by commas, such as `1,234,567`.
pub fn commify(n: u64) -> (r: String)
    ensures
        r@ == grouped(decimal(n as nat)),
{
    let digits = decimal_string(n);
    let mut out = String::new();
    let len = digits.as_str().unicode_len();
    push_grouped(&mut out, digits.as_str(), len);
    proof {
        assert(digits@.take(len as int) == digits@);
    }
    out
}

/// The unit of a short number display: the largest of T (10^12), G (10^9), M (10^6) and k
/// (10^3) that `n` reaches, with its size; `None` below a thousand.
pub open spec fn short_unit(n: u64) -> Option<(u64, Seq<char>)> {
    if n >= 1_000_000_000_000 {
        Some((1_000_000_000_000, "T"@))
    } else if n >= 1_000_000_000 {
        Some((1_000_000_000, "G"@))
    } else if n >= 1_000_000 {
        Some((1_000_000, "M"@))
    } else if n >= 1_000 {
        Some((1_000, "k"@))
    } else {
        None
    }
}

/// Chooses the unit of a short number display.
pub fn short_scale(n: u64) -> (r: Option<(u64, &'static str)>)
    ensures
        match r {
            Some((d, u)) => short_unit(n) == Some((d, u@)),
            None => short_unit(n) is None,
        },
{
    if n >= 1_000_000_000_000 {
        Some((1_000_000_000_000, "T"))
    } else if n >= 1_000_000_000 {
        Some((1_000_000_000, "G"))
    } else if n >= 1_000_000 {
        Some((1_000_000, "M"))
    } else if n >= 1_000 {
        Some((1_000, "k"))
    } else {
        None
    }
}


/// `s` with its commas removed.
pub open spec fn without_commas(s: Seq<char>) -> Seq<char>
    decreases s.len(),
{
    if s.len() == 0 {
        s
    } else if s.last() == ',' {
        without_commas(s.drop_last())
    } else {
        without_commas(s.drop_last()).push(s.last())
    }
}

proof fn lemma_without_commas_concat(a: Seq<char>, b: Seq<char>)
    ensures
        without_commas(a + b) == without_commas(a) + without_commas(b),
    decreases b.len(),
{
    if b.len() == 0 {
        assert(a + b == a);
    } else {
        lemma_without_commas_concat(a, b.drop_last());
        assert((a + b).drop_last() == a + b.drop_last());
    }
}

proof fn lemma_without_commas_none(s: Seq<char>)
    requires
        !s.contains(','),
    ensures
        without_commas(s) == s,
    decreases s.len(),
{
    if s.len() > 0 {
        assert(!s.drop_last().contains(',')) by {
            if s.drop_last().contains(',') {
                let i = choose|i: int| 0 <= i < s.drop_last().len() && s.drop_last()[i] == ',';
                assert(s[i] == ',');
            }
        }
        lemma_without_commas_none(s.drop_last());
        assert(s.last() != ',') by {
            assert(s[s.len() - 1] == s.last());
        }
        assert(s.drop_last().push(s.last()) == s);
    }
}

proof fn lemma_grouped_keeps_digits(d: Seq<char>)
    requires
        !d.contains(','),
    ensures
        without_commas(grouped(d)) == d,
    decreases d.len(),
{
    if d.len() <= 3 {
        lemma_without_commas_none(d);
    } else {
        let head = d.take(d.len() - 3);
        let tail = d.skip(d.len() - 3);
        assert(!head.contains(',')) by {
            if head.contains(',') {
                let i = choose|i: int| 0 <= i < head.len() && head[i] == ',';
                assert(d[i] == ',');
            }
        }
        assert(!tail.contains(',')) by {
            if tail.contains(',') {
                let i = choose|i: int| 0 <= i < tail.len() && tail[i] == ',';
                assert(d[i + d.len() - 3] == ',');
            }
        }
        lemma_grouped_keeps_digits(head);
        lemma_without_commas_none(tail);
        lemma_without_commas_concat(grouped(head) + seq![','], tail);
        lemma_without_commas_concat(grouped(head), seq![',']);
        let comma = seq![','];
        assert(comma.last() == ',');
        assert(comma.drop_last() =~= Seq::<char>::empty());
        assert(without_commas(comma.drop_last()).len() == 0);
        assert(without_commas(comma) == Seq::<char>::empty());
        assert(head + tail == d);
    }
}

proof fn lemma_decimal_has_no_comma(n: nat)
    ensures
        !decimal(n).contains(','),
    decreases n,
{
    if n >= 10 {
        lemma_decimal_has_no_comma(n / 10);
        let d = decimal(n);
        if d.contains(',') {
            let i = choose|i: int| 0 <= i < d.len() && d[i] == ',';
            if i < d.len() - 1 {
                assert(d[i] == decimal(n / 10)[i]);
            }
        }
    }
}

/// Removing the commas from a grouped number gives back its plain digits.
pub proof fn law_commify_keeps_digits(n: u64)
    ensures
        without_commas(grouped(decimal(n as nat))) == decimal(n as nat),
{
    lemma_decimal_has_no_comma(n as nat);
    lemma_grouped_keeps_digits(decimal(n as nat));
}

/// Where a program called `name` would stand in each directory of `dirs`, in the same order:
/// the directory, a slash and the name.
pub fn prog_candidates(name: &str, dirs: &[&str]) -> (r: Vec<String>)
    ensures
        r@.len() == dirs@.len(),
        forall|i: int|
            0 <= i < dirs@.len() ==> (#[trigger] r@[i])@ == dirs@[i]@ + "/"@ + name@,
{
    let mut out: Vec<String> = Vec::new();
    let mut i: usize = 0;
    while i < dirs.len()
        invariant
            i <= dirs@.len(),
            out@.len() == i,
            forall|j: int| 0 <= j < i ==> (#[trigger] out@[j])@ == dirs@[j]@ + "/"@ + name@,
        decreases dirs@.len() - i,
    {
        let mut path = String::from_str(dirs[i]);
        path.append("/");
        path.append(name);
        out.push(path);
        i = i + 1;
    }
    out
}

} // verus!

//! Small string operations shared by the URL builder and the report.
use vstd::prelude::*;

verus! {

/// `s` with every trailing `/` removed.
pub open spec fn without_trailing_slashes(s: Seq<char>) -> Seq<char>
    decreases s.len(),
{
    if s.len() > 0 && s.last() == '/' {
        without_trailing_slashes(s.drop_last())
    } else {
        s
    }
}

/// `s` with every leading `/` removed.
pub open spec fn without_leading_slashes(s: Seq<char>) -> Seq<char>
    decreases s.len(),
{
    if s.len() > 0 && s[0] == '/' {
        without_leading_slashes(s.drop_first())
    } else {
        s
    }
}

/// A run of `n` slashes.
pub open spec fn slashes(n: nat) -> Seq<char> {
    Seq::new(n, |i: int| '/')
}

/// The decimal digit for `d`, which is below ten.
pub open spec fn digit_char(d: nat) -> char {
    if d == 0 {
        '0'
    } else if d == 1 {
        '1'
    } else if d == 2 {
        '2'
    } else if d == 3 {
        '3'
    } else if d == 4 {
        '4'
    } else if d == 5 {
        '5'
    } else if d == 6 {
        '6'
    } else if d == 7 {
        '7'
    } else if d == 8 {
        '8'
    } else {
        '9'
    }
}

/// The decimal rendering of `n`, without leading zeros (`0` for zero).
pub open spec fn decimal(n: nat) -> Seq<char>
    decreases n,
{
    if n < 10 {
        seq![digit_char(n)]
    } else {
        decimal(n / 10) + seq![digit_char(n % 10)]
    }
}

/// Trimming trailing slashes removes a run of slashes from the end, and what
/// is left does not end with a slash.
pub proof fn lemma_trailing_slashes(s: Seq<char>)
    ensures
        exists|k: nat| s == without_trailing_slashes(s) + #[trigger] slashes(k),
        without_trailing_slashes(s).len() == 0 || without_trailing_slashes(s).last() != '/',
    decreases s.len(),
{
    if s.len() > 0 && s.last() == '/' {
        lemma_trailing_slashes(s.drop_last());
        let k = choose|k: nat| s.drop_last() == without_trailing_slashes(s.drop_last()) + #[trigger] slashes(k);
        assert(slashes(k + 1) =~= slashes(k).push('/'));
        assert(s =~= s.drop_last().push('/'));
        assert(s =~= without_trailing_slashes(s) + slashes(k + 1));
    } else {
        assert(s == without_trailing_slashes(s) + slashes(0));
    }
}

/// Trimming leading slashes removes a run of slashes from the start, and what
/// is left does not start with a slash.
pub proof fn lemma_leading_slashes(s: Seq<char>)
    ensures
        exists|k: nat| s == #[trigger] slashes(k) + without_leading_slashes(s),
        without_leading_slashes(s).len() == 0 || without_leading_slashes(s)[0] != '/',
    decreases s.len(),
{
    if s.len() > 0 && s[0] == '/' {
        lemma_leading_slashes(s.drop_first());
        let k = choose|k: nat| s.drop_first() == #[trigger] slashes(k) + without_leading_slashes(s.drop_first());
        assert(slashes(k + 1) =~= seq!['/'] + slashes(k));
        assert(s =~= seq!['/'] + s.drop_first());
        assert(s =~= slashes(k + 1) + without_leading_slashes(s));
    } else {
        assert(s == slashes(0) + without_leading_slashes(s));
    }
}

/// Slashes added at the end are trimmed away with the others.
pub proof fn lemma_trailing_slashes_absorbed(s: Seq<char>, k: nat)
    ensures
        without_trailing_slashes(s + slashes(k)) == without_trailing_slashes(s),
    decreases k,
{
    if k > 0 {
        lemma_trailing_slashes_absorbed(s, (k - 1) as nat);
        let t = s + slashes(k);
        assert(t.drop_last() =~= s + slashes((k - 1) as nat));
    } else {
        assert(s + slashes(0) =~= s);
    }
}

/// Slashes added at the start are trimmed away with the others.
pub proof fn lemma_leading_slashes_absorbed(s: Seq<char>, k: nat)
    ensures
        without_leading_slashes(slashes(k) + s) == without_leading_slashes(s),
    decreases k,
{
    if k > 0 {
        lemma_leading_slashes_absorbed(s, (k - 1) as nat);
        let t = slashes(k) + s;
        assert(t.drop_first() =~= slashes((k - 1) as nat) + s);
    } else {
        assert(slashes(0) + s =~= s);
    }
}

/// `s` without its trailing slashes, found by walking back from the end.
pub fn trim_trailing_slashes(s: &str) -> (t: &str)
    ensures
        t@ == without_trailing_slashes(s@),
{
    let n = s.unicode_len();
    let mut end: usize = n;
    assert(s@.subrange(0, n as int) =~= s@);
    while end > 0 && s.get_char(end - 1) == '/'
        invariant
            end <= n,
            n == s@.len(),
            without_trailing_slashes(s@) == without_trailing_slashes(s@.subrange(0, end as int)),
        decreases end,
    {
        assert(s@.subrange(0, end as int).drop_last() == s@.subrange(0, end - 1));
        end = end - 1;
    }
    assert(s@.subrange(0, n as int) == s@);
    s.substring_char(0, end)
}

/// `s` without its leading slashes, found by walking forward from the start.
pub fn trim_leading_slashes(s: &str) -> (t: &str)
    ensures
        t@ == without_leading_slashes(s@),
{
    let n = s.unicode_len();
    let mut start: usize = 0;
    assert(s@.subrange(0, n as int) =~= s@);
    while start < n && s.get_char(start) == '/'
        invariant
            start <= n,
            n == s@.len(),
            without_leading_slashes(s@) == without_leading_slashes(s@.subrange(start as int, n as int)),
        decreases n - start,
    {
        assert(s@.subrange(start as int, n as int).drop_first() == s@.subrange(start + 1, n as int));
        start = start + 1;
    }
    assert(s@.subrange(0, n as int) == s@);
    s.substring_char(start, n)
}

/// Only digits occur in a decimal rendering, never a slash; a number of two or
/// more digits is rendered with two or more characters.
pub proof fn lemma_decimal_digits(n: nat)
    ensures
        forall|i: int| 0 <= i < decimal(n).len() ==> #[trigger] decimal(n)[i] != '/',
        decimal(n).len() >= 1,
        n >= 10 ==> decimal(n).len() >= 2,
    decreases n,
{
    if n >= 10 {
        lemma_decimal_digits(n / 10);
        let d = decimal(n / 10);
        assert forall|i: int| 0 <= i < decimal(n).len() implies #[trigger] decimal(n)[i] != '/' by {
            if i < d.len() {
                assert(decimal(n)[i] == d[i]);
            }
        }
    }
}

/// Different numbers have different decimal renderings.
pub proof fn lemma_decimal_injective(a: nat, b: nat)
    ensures
        decimal(a) == decimal(b) ==> a == b,
    decreases a,
{
    if decimal(a) == decimal(b) {
        lemma_decimal_digits(a);
        lemma_decimal_digits(b);
        if a >= 10 && b >= 10 {
            let da = decimal(a);
            assert(da.drop_last() =~= decimal(a / 10));
            assert(decimal(b).drop_last() =~= decimal(b / 10));
            assert(da.last() == digit_char(a % 10));
            assert(decimal(b).last() == digit_char(b % 10));
            lemma_decimal_injective(a / 10, b / 10);
            lemma_digit_char_injective(a % 10, b % 10);
            assert(a == 10 * (a / 10) + a % 10);
            assert(b == 10 * (b / 10) + b % 10);
        } else if a < 10 && b < 10 {
            assert(decimal(a)[0] == digit_char(a));
            assert(decimal(b)[0] == digit_char(b));
            lemma_digit_char_injective(a, b);
        }
    }
}

/// Different digits are different characters.
pub proof fn lemma_digit_char_injective(d: nat, e: nat)
    requires
        d < 10,
        e < 10,
        digit_char(d) == digit_char(e),
    ensures
        d == e,
{
}

/// In `x + "/" + y`, where `x` holds no slash, `x` is everything before the
/// first slash: two such joins that agree have the same `x`.
pub proof fn lemma_split_at_first_slash(x1: Seq<char>, y1: Seq<char>, x2: Seq<char>, y2: Seq<char>)
    requires
        forall|i: int| 0 <= i < x1.len() ==> #[trigger] x1[i] != '/',
        forall|i: int| 0 <= i < x2.len() ==> #[trigger] x2[i] != '/',
        x1 + seq!['/'] + y1 == x2 + seq!['/'] + y2,
    ensures
        x1 == x2,
        y1 == y2,
{
    let s = x1 + seq!['/'] + y1;
    if x1.len() < x2.len() {
        assert(s[x1.len() as int] == '/');
        assert((x2 + seq!['/'] + y2)[x1.len() as int] == x2[x1.len() as int]);
    } else if x2.len() < x1.len() {
        assert((x2 + seq!['/'] + y2)[x2.len() as int] == '/');
        assert(s[x2.len() as int] == x1[x2.len() as int]);
    } else {
        assert(x1 =~= s.subrange(0, x1.len() as int));
        assert(x2 =~= (x2 + seq!['/'] + y2).subrange(0, x2.len() as int));
        assert(y1 =~= s.subrange(x1.len() as int + 1, s.len() as int));
        assert(y2 =~= (x2 + seq!['/'] + y2).subrange(x2.len() as int + 1, s.len() as int));
    }
}

/// Appends the decimal rendering of `n` to `out`.
pub fn push_decimal(out: &mut String, n: usize)
    ensures
        final(out)@ == old(out)@ + decimal(n as nat),
    decreases n,
{
    if n >= 10 {
        push_decimal(out, n / 10);
    }
    let d = n % 10;
    let digits = "0123456789";
    proof {
        reveal_strlit("0123456789");
    }
    out.append(digits.substring_char(d, d + 1));
    assert(digits@.subrange(d as int, d + 1) == seq![digit_char(d as nat)]);
}

} // verus!

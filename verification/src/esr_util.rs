//! Text and time helpers: comparing strings, decimal numbers, the registry's
//! date format, ages and spans in synthetic months, and the recognition of a
//! repository path in a free-text URL.

use vstd::prelude::*;
use vstd::string::*;

use crate::esr_errors::EsrError;
use crate::esr_fixed::{months, spec_months, MAX_MONTHS};

verus! {

// ---------------------------------------------------------------------------
// Strings
// ---------------------------------------------------------------------------

/// The characters of an optional string.
pub open spec fn opt_view(o: Option<String>) -> Option<Seq<char>> {
    match o {
        Some(s) => Some(s@),
        None => None,
    }
}

/// The characters of `s`, in order.
pub fn str_chars(s: &str) -> (v: Vec<char>)
    ensures
        v@ == s@,
{
    let mut v: Vec<char> = Vec::new();
    for c in it: s.chars()
        invariant
            v@ == it.seq().take(it.index() as int),
            it.seq() == s@,
    {
        v.push(c);
    }
    v
}

/// Whether two strings hold the same characters.
pub fn str_eq(a: &str, b: &str) -> (r: bool)
    ensures
        r == (a@ == b@),
{
    let x = str_chars(a);
    let y = str_chars(b);
    if x.len() != y.len() {
        return false;
    }
    let mut i: usize = 0;
    while i < x.len()
        invariant
            i <= x.len(),
            x.len() == y.len(),
            x@ == a@,
            y@ == b@,
            x@.take(i as int) == y@.take(i as int),
        decreases x.len() - i,
    {
        if x[i] != y[i] {
            return false;
        }
        assert(x@.take(i as int + 1) == x@.take(i as int).push(x@[i as int]));
        assert(y@.take(i as int + 1) == y@.take(i as int).push(y@[i as int]));
        i += 1;
    }
    assert(x@ == x@.take(i as int));
    assert(y@ == y@.take(i as int));
    true
}

/// `a` comes strictly before `b` in the order of `str`: at the first place
/// where they differ `a` has the smaller character, or `a` ends there.
pub open spec fn spec_str_lt(a: Seq<char>, b: Seq<char>) -> bool
    decreases a.len(),
{
    if b.len() == 0 {
        false
    } else if a.len() == 0 {
        true
    } else if a[0] != b[0] {
        (a[0] as int) < (b[0] as int)
    } else {
        spec_str_lt(a.drop_first(), b.drop_first())
    }
}

/// No string comes before itself.
pub proof fn lemma_str_lt_irreflexive(a: Seq<char>)
    ensures
        !spec_str_lt(a, a),
    decreases a.len(),
{
    if a.len() > 0 {
        lemma_str_lt_irreflexive(a.drop_first());
    }
}

/// The order of strings is transitive.
pub proof fn lemma_str_lt_transitive(a: Seq<char>, b: Seq<char>, c: Seq<char>)
    requires
        spec_str_lt(a, b),
        spec_str_lt(b, c),
    ensures
        spec_str_lt(a, c),
    decreases a.len(),
{
    if a.len() > 0 && b.len() > 0 && c.len() > 0 {
        if a[0] == b[0] && b[0] == c[0] {
            lemma_str_lt_transitive(a.drop_first(), b.drop_first(), c.drop_first());
        }
    }
}

/// Of two different strings one comes before the other.
pub proof fn lemma_str_lt_total(a: Seq<char>, b: Seq<char>)
    ensures
        spec_str_lt(a, b) || spec_str_lt(b, a) || a == b,
    decreases a.len(),
{
    if a.len() == 0 || b.len() == 0 {
        if a.len() == 0 && b.len() == 0 {
            assert(a =~= b);
        }
    } else if a[0] == b[0] {
        lemma_str_lt_total(a.drop_first(), b.drop_first());
        if a.drop_first() == b.drop_first() {
            assert(a =~= seq![a[0]] + a.drop_first());
            assert(b =~= seq![b[0]] + b.drop_first());
        }
    }
}

/// Whether `a` comes strictly before `b` in the order of `str`.
pub fn str_lt(a: &str, b: &str) -> (r: bool)
    ensures
        r == spec_str_lt(a@, b@),
{
    let x = str_chars(a);
    let y = str_chars(b);
    let mut i: usize = 0;
    assert(x@.skip(0) =~= x@);
    assert(y@.skip(0) =~= y@);
    while i < x.len() && i < y.len()
        invariant
            i <= x.len(),
            i <= y.len(),
            x@ == a@,
            y@ == b@,
            spec_str_lt(x@, y@) == spec_str_lt(x@.skip(i as int), y@.skip(i as int)),
        decreases x.len() - i,
    {
        let ghost xs = x@.skip(i as int);
        let ghost ys = y@.skip(i as int);
        assert(xs.len() > 0 && ys.len() > 0);
        assert(xs[0] == x@[i as int]);
        assert(ys[0] == y@[i as int]);
        if x[i] != y[i] {
            let before = x[i] < y[i];
            assert(spec_str_lt(xs, ys) == before);
            return before;
        }
        assert(xs.drop_first() =~= x@.skip(i as int + 1));
        assert(ys.drop_first() =~= y@.skip(i as int + 1));
        assert(spec_str_lt(xs, ys) == spec_str_lt(xs.drop_first(), ys.drop_first()));
        i += 1;
    }
    assert(x@.skip(i as int).len() == x.len() - i);
    assert(y@.skip(i as int).len() == y.len() - i);
    i < y.len()
}

/// The characters of each string of a list.
pub open spec fn str_views(v: Seq<&str>) -> Seq<Seq<char>> {
    Seq::new(v.len(), |i: int| v[i]@)
}

/// Each string comes strictly before the next: the list is in order and
/// nothing stands in it twice.
pub open spec fn strictly_sorted(v: Seq<Seq<char>>) -> bool {
    forall|i: int, j: int| 0 <= i < j < v.len() ==> spec_str_lt(#[trigger] v[i], #[trigger] v[j])
}

/// `v` is `c` put in order, each string kept once.
pub open spec fn is_sorted_set_of(v: Seq<Seq<char>>, c: Seq<Seq<char>>) -> bool {
    strictly_sorted(v) && forall|s: Seq<char>| v.contains(s) <==> c.contains(s)
}

/// A list that is in order without repeats is determined by what it holds:
/// there is one way only to put a list in order, each string kept once.
pub proof fn lemma_sorted_set_unique(v: Seq<Seq<char>>, w: Seq<Seq<char>>)
    requires
        strictly_sorted(v),
        strictly_sorted(w),
        forall|s: Seq<char>| v.contains(s) <==> w.contains(s),
    ensures
        v == w,
    decreases v.len(),
{
    if v.len() == 0 {
        if w.len() > 0 {
            assert(w.contains(w[0]));
        }
        assert(v =~= w);
    } else if w.len() == 0 {
        assert(v.contains(v[0]));
    } else {
        // The two last strings are each the greatest of the same set.
        let a = v.last();
        let b = w.last();
        assert(v.contains(a));
        assert(w.contains(b));
        let ia = choose|i: int| 0 <= i < w.len() && w[i] == a;
        let ib = choose|i: int| 0 <= i < v.len() && v[i] == b;
        lemma_str_lt_total(a, b);
        if spec_str_lt(a, b) {
            if ib < v.len() - 1 {
                lemma_str_lt_transitive(a, b, a);
            }
            lemma_str_lt_irreflexive(a);
        }
        if spec_str_lt(b, a) {
            if ia < w.len() - 1 {
                lemma_str_lt_transitive(b, a, b);
            }
            lemma_str_lt_irreflexive(b);
        }
        assert(a == b);
        let vf = v.drop_last();
        let wf = w.drop_last();
        assert forall|s: Seq<char>| vf.contains(s) <==> wf.contains(s) by {
            if vf.contains(s) {
                let i = choose|i: int| 0 <= i < vf.len() && vf[i] == s;
                assert(v[i] == s);
                assert(v.contains(s));
                assert(spec_str_lt(s, a));
                let j = choose|j: int| 0 <= j < w.len() && w[j] == s;
                if j == w.len() - 1 {
                    lemma_str_lt_irreflexive(a);
                }
                assert(wf[j] == s);
            }
            if wf.contains(s) {
                let i = choose|i: int| 0 <= i < wf.len() && wf[i] == s;
                assert(w[i] == s);
                assert(w.contains(s));
                assert(spec_str_lt(s, b));
                let j = choose|j: int| 0 <= j < v.len() && v[j] == s;
                if j == v.len() - 1 {
                    lemma_str_lt_irreflexive(b);
                }
                assert(vf[j] == s);
            }
        }
        assert(strictly_sorted(vf)) by {
            assert forall|i: int, j: int| 0 <= i < j < vf.len() implies spec_str_lt(
                #[trigger] vf[i],
                #[trigger] vf[j],
            ) by {
                assert(vf[i] == v[i] && vf[j] == v[j]);
            }
        }
        assert(strictly_sorted(wf)) by {
            assert forall|i: int, j: int| 0 <= i < j < wf.len() implies spec_str_lt(
                #[trigger] wf[i],
                #[trigger] wf[j],
            ) by {
                assert(wf[i] == w[i] && wf[j] == w[j]);
            }
        }
        lemma_sorted_set_unique(vf, wf);
        assert(v =~= vf.push(a));
        assert(w =~= wf.push(b));
    }
}

/// Puts `x` at its place in a list that is in order, unless it is there.
pub fn insert_sorted<'a>(out: &mut Vec<&'a str>, x: &'a str)
    requires
        strictly_sorted(str_views(old(out)@)),
    ensures
        strictly_sorted(str_views(final(out)@)),
        forall|s: Seq<char>|
            str_views(final(out)@).contains(s) <==> (str_views(old(out)@).contains(s) || s == x@),
{
    let ghost before = str_views(out@);
    let mut p: usize = 0;
    while p < out.len() && str_lt(out[p], x)
        invariant
            p <= out.len(),
            out@ == old(out)@,
            before == str_views(out@),
            forall|k: int| 0 <= k < p ==> spec_str_lt(#[trigger] before[k], x@),
        decreases out.len() - p,
    {
        assert(before[p as int] == out@[p as int]@);
        p += 1;
    }
    if p < out.len() && str_eq(out[p], x) {
        assert(before[p as int] == x@);
        assert(before.contains(x@));
        return ;
    }
    proof {
        // `x` stands nowhere in the list, and comes before all from `p` on.
        if p < out.len() {
            assert(before[p as int] == out@[p as int]@);
            lemma_str_lt_total(before[p as int], x@);
            assert(spec_str_lt(x@, before[p as int]));
            assert forall|k: int| p <= k < before.len() implies spec_str_lt(
                x@,
                #[trigger] before[k],
            ) by {
                if k > p {
                    lemma_str_lt_transitive(x@, before[p as int], before[k]);
                }
            }
        }
    }
    out.insert(p, x);
    proof {
        let after = str_views(out@);
        assert(after =~= before.insert(p as int, x@));
        assert forall|i: int, j: int| 0 <= i < j < after.len() implies spec_str_lt(
            #[trigger] after[i],
            #[trigger] after[j],
        ) by {
            if j < p {
                assert(after[i] == before[i] && after[j] == before[j]);
            } else if j == p {
                assert(after[i] == before[i]);
            } else if i < p {
                assert(after[i] == before[i] && after[j] == before[j - 1]);
            } else if i == p {
                assert(after[j] == before[j - 1]);
            } else {
                assert(after[i] == before[i - 1] && after[j] == before[j - 1]);
            }
        }
        assert forall|s: Seq<char>| after.contains(s) <==> (before.contains(s) || s == x@) by {
            if after.contains(s) {
                let i = choose|i: int| 0 <= i < after.len() && after[i] == s;
                if i < p {
                    assert(before[i] == s);
                } else if i > p {
                    assert(before[i - 1] == s);
                }
            }
            if before.contains(s) {
                let i = choose|i: int| 0 <= i < before.len() && before[i] == s;
                if i < p {
                    assert(after[i] == s);
                } else {
                    assert(after[i + 1] == s);
                }
            }
            if s == x@ {
                assert(after[p as int] == s);
            }
        }
    }
}

/// The strings of `items` in order, each once.
pub fn sort_dedup<'a>(items: &Vec<&'a str>) -> (out: Vec<&'a str>)
    ensures
        is_sorted_set_of(str_views(out@), str_views(items@)),
{
    let mut out: Vec<&'a str> = Vec::new();
    let mut i: usize = 0;
    while i < items.len()
        invariant
            i <= items.len(),
            strictly_sorted(str_views(out@)),
            forall|s: Seq<char>|
                str_views(out@).contains(s) <==> str_views(items@).take(i as int).contains(s),
        decreases items.len() - i,
    {
        let ghost seen = str_views(items@).take(i as int);
        let ghost held = str_views(out@);
        insert_sorted(&mut out, items[i]);
        proof {
            let next = str_views(items@).take(i as int + 1);
            assert(next =~= seen.push(items@[i as int]@));
            assert forall|s: Seq<char>| str_views(out@).contains(s) <==> next.contains(s) by {
                if next.contains(s) {
                    let k = choose|k: int| 0 <= k < next.len() && next[k] == s;
                    if k < i {
                        assert(seen[k] == s);
                        assert(seen.contains(s));
                    }
                }
                if seen.contains(s) {
                    let k = choose|k: int| 0 <= k < seen.len() && seen[k] == s;
                    assert(next[k] == s);
                }
                if s == items@[i as int]@ {
                    assert(next[i as int] == s);
                }
            }
        }
        i += 1;
    }
    assert(str_views(items@).take(i as int) =~= str_views(items@));
    out
}

/// The place of the last `c` in `s`, if there is one.
pub open spec fn spec_rfind(s: Seq<char>, c: char) -> Option<int>
    decreases s.len(),
{
    if s.len() == 0 {
        None
    } else if s.last() == c {
        Some(s.len() - 1)
    } else {
        spec_rfind(s.drop_last(), c)
    }
}

/// What `spec_rfind` finds is a place of `c`, and `c` does not occur after it.
pub proof fn lemma_rfind(s: Seq<char>, c: char)
    ensures
        match spec_rfind(s, c) {
            Some(i) => 0 <= i < s.len() && s[i] == c && forall|j: int|
                i < j < s.len() ==> s[j] != c,
            None => !s.contains(c),
        },
    decreases s.len(),
{
    if s.len() == 0 {
    } else if s.last() == c {
    } else {
        let front = s.drop_last();
        lemma_rfind(front, c);
        assert(spec_rfind(s, c) == spec_rfind(front, c));
        match spec_rfind(front, c) {
            Some(i) => {
                assert(front[i] == s[i]);
                assert forall|j: int| i < j < s.len() implies s[j] != c by {
                    if j < s.len() - 1 {
                        assert(front[j] == s[j]);
                    }
                }
            },
            None => {
                assert forall|j: int| 0 <= j < s.len() implies s[j] != c by {
                    if j < s.len() - 1 {
                        assert(front[j] == s[j]);
                        assert(front.contains(front[j]));
                    }
                }
            },
        }
    }
}

/// The place of the last `c` in `s`, counted in characters.
pub fn rfind_char(s: &str, c: char) -> (r: Option<usize>)
    ensures
        match r {
            Some(i) => spec_rfind(s@, c) == Some(i as int),
            None => spec_rfind(s@, c) is None,
        },
{
    let v = str_chars(s);
    let mut found: Option<usize> = None;
    let mut i: usize = 0;
    while i < v.len()
        invariant
            i <= v.len(),
            v@ == s@,
            match found {
                Some(k) => spec_rfind(v@.take(i as int), c) == Some(k as int),
                None => spec_rfind(v@.take(i as int), c) is None,
            },
        decreases v.len() - i,
    {
        assert(v@.take(i as int + 1).drop_last() == v@.take(i as int));
        if v[i] == c {
            found = Some(i);
        }
        i += 1;
    }
    assert(v@.take(i as int) == v@);
    found
}

/// Whether `c` occurs in `s`.
pub fn contains_char(s: &str, c: char) -> (r: bool)
    ensures
        r == s@.contains(c),
{
    proof {
        lemma_rfind(s@, c);
    }
    rfind_char(s, c).is_some()
}

// ---------------------------------------------------------------------------
// Decimal numbers
// ---------------------------------------------------------------------------

/// The character of one decimal digit.
pub open spec fn spec_digit(d: nat) -> char {
    if d == 0 {
        '0'
    } else if d == 1 {
        '1'
    } else if d == 2 {
        '2'
    } else if d == 3 {
        '3'
    } else if d == 4 {
        '4'
    } else if d == 5 {
        '5'
    } else if d == 6 {
        '6'
    } else if d == 7 {
        '7'
    } else if d == 8 {
        '8'
    } else {
        '9'
    }
}

/// `n` in decimal digits, without a sign and without leading zeros.
pub open spec fn spec_decimal(n: nat) -> Seq<char>
    decreases n,
{
    if n < 10 {
        seq![spec_digit(n)]
    } else {
        spec_decimal(n / 10).push(spec_digit(n % 10))
    }
}

fn digit_str(d: usize) -> (r: &'static str)
    requires
        d < 10,
    ensures
        r@ == seq![spec_digit(d as nat)],
{
    proof {
        reveal_strlit("0");
        reveal_strlit("1");
        reveal_strlit("2");
        reveal_strlit("3");
        reveal_strlit("4");
        reveal_strlit("5");
        reveal_strlit("6");
        reveal_strlit("7");
        reveal_strlit("8");
        reveal_strlit("9");
    }
    let r = if d == 0 {
        "0"
    } else if d == 1 {
        "1"
    } else if d == 2 {
        "2"
    } else if d == 3 {
        "3"
    } else if d == 4 {
        "4"
    } else if d == 5 {
        "5"
    } else if d == 6 {
        "6"
    } else if d == 7 {
        "7"
    } else if d == 8 {
        "8"
    } else {
        "9"
    };
    assert(r@ =~= seq![spec_digit(d as nat)]);
    r
}

/// `n` written in decimal digits.
pub fn decimal(n: u128) -> (r: String)
    ensures
        r@ == spec_decimal(n as nat),
    decreases n,
{
    if n < 10 {
        String::from_str(digit_str(n as usize))
    } else {
        let mut r = decimal(n / 10);
        r.append(digit_str((n % 10) as usize));
        assert(r@ =~= spec_decimal(n as nat / 10).push(spec_digit(n as nat % 10)));
        r
    }
}

/// A number without its sign.
pub open spec fn spec_abs(v: int) -> nat {
    if v < 0 {
        (-v) as nat
    } else {
        v as nat
    }
}

/// The last three decimal digits of a number.
pub open spec fn spec_three_digits(n: nat) -> Seq<char> {
    seq![spec_digit(n / 100 % 10), spec_digit(n / 10 % 10), spec_digit(n % 10)]
}

/// A number of thousandths written with a decimal point and three decimals,
/// after a `-` where it is below zero.
pub open spec fn spec_milli_text(v: int) -> Seq<char> {
    let sign = if v < 0 {
        seq!['-']
    } else {
        Seq::<char>::empty()
    };
    sign + spec_decimal(spec_abs(v) / 1000) + seq!['.'] + spec_three_digits(spec_abs(v) % 1000)
}

/// A number in units of which `unit` make one thousandth, in thousandths and
/// rounded to the nearest; a half is rounded away from zero.
pub open spec fn spec_round_to_milli(v: int, unit: nat) -> int {
    if v < 0 {
        -((spec_abs(v) + unit / 2) / unit)
    } else {
        (v + unit / 2) / (unit as int)
    }
}

/// A number of millionths written with three decimals.
pub open spec fn spec_micro_text(v: int) -> Seq<char> {
    spec_milli_text(spec_round_to_milli(v, 1_000))
}

/// A number of billionths written with three decimals.
pub open spec fn spec_nano_text(v: int) -> Seq<char> {
    spec_milli_text(spec_round_to_milli(v, 1_000_000))
}

/// A number of billionths written with one decimal, a half rounded up.
pub open spec fn spec_tenths_text(v: nat) -> Seq<char> {
    spec_decimal((v + 50_000_000) / 100_000_000 / 10) + seq![
        '.',
        spec_digit((v + 50_000_000) / 100_000_000 % 10),
    ]
}

fn abs_wide(v: i128) -> (r: u128)
    ensures
        r as nat == spec_abs(v as int),
{
    if v < 0 {
        (-(v + 1)) as u128 + 1
    } else {
        v as u128
    }
}

/// A number of thousandths written with three decimals: `-2000` is `-2.000`.
pub fn milli_text(v: i128) -> (r: String)
    ensures
        r@ == spec_milli_text(v as int),
{
    proof {
        reveal_strlit("-");
        reveal_strlit(".");
        reveal_strlit("");
    }
    let a = abs_wide(v);
    let part = a % 1000;
    let mut r = String::from_str(if v < 0 { "-" } else { "" });
    r.append(decimal(a / 1000).as_str());
    r.append(".");
    r.append(digit_str((part / 100 % 10) as usize));
    r.append(digit_str((part / 10 % 10) as usize));
    r.append(digit_str((part % 10) as usize));
    assert(r@ =~= spec_milli_text(v as int));
    r
}

fn round_to_milli(v: i128, unit: u128) -> (r: i128)
    requires
        unit == 1_000 || unit == 1_000_000,
    ensures
        r == spec_round_to_milli(v as int, unit as nat),
{
    let a = abs_wide(v);
    let half = unit / 2;
    let rounded: u128 = (a / unit) + (if a % unit >= half {
        1u128
    } else {
        0u128
    });
    assert(rounded == (a + half) / (unit as int));
    if v < 0 {
        -(rounded as i128)
    } else {
        rounded as i128
    }
}

/// A number of millionths written with three decimals, rounded to the
/// nearest thousandth: `18972500` is `18.973`.
pub fn micro_text(v: i128) -> (r: String)
    ensures
        r@ == spec_micro_text(v as int),
{
    milli_text(round_to_milli(v, 1_000))
}

/// A number of billionths written with three decimals, rounded to the
/// nearest thousandth: `-524500000` is `-0.525`.
pub fn nano_text(v: i128) -> (r: String)
    ensures
        r@ == spec_nano_text(v as int),
{
    milli_text(round_to_milli(v, 1_000_000))
}

/// A number of billionths written with one decimal: `1250000000` is `1.3`.
pub fn tenths_text(v: u128) -> (r: String)
    requires
        v <= MAX_MONTHS,
    ensures
        r@ == spec_tenths_text(v as nat),
{
    proof {
        reveal_strlit(".");
    }
    let tenths: u128 = (v + 50_000_000) / 100_000_000;
    let mut r = decimal(tenths / 10);
    r.append(".");
    r.append(digit_str((tenths % 10) as usize));
    assert(r@ =~= spec_tenths_text(v as nat));
    r
}

// ---------------------------------------------------------------------------
// Dates
// ---------------------------------------------------------------------------

/// The registry writes a date either in ISO 8601 already (it ends in `Z` and
/// has no fraction), or with an offset after a `+`, with or without a
/// fraction of a second after a `.`. Nothing else can be brought to ISO 8601.
pub open spec fn iso8601_convertible(d: Seq<char>) -> bool {
    let dot = spec_rfind(d, '.');
    let plus = spec_rfind(d, '+');
    let zed = spec_rfind(d, 'Z');
    ||| (dot is None && zed is Some)
    ||| (dot is None && plus is Some && zed is None)
    ||| (dot is Some && plus is Some && zed is None)
}

/// The date in ISO 8601: unchanged where it is so already, else cut before
/// the fraction, or before the offset where it has no fraction, with a `Z`
/// in its place.
pub open spec fn spec_crate_to_iso8601(d: Seq<char>) -> Seq<char> {
    let dot = spec_rfind(d, '.');
    let plus = spec_rfind(d, '+');
    let zed = spec_rfind(d, 'Z');
    if dot is None {
        if zed is Some {
            d
        } else {
            d.take(plus->Some_0).push('Z')
        }
    } else {
        d.take(dot->Some_0).push('Z')
    }
}

/// Whether `crate_to_iso8601` takes this date.
pub fn is_iso8601_convertible(cr_date: &str) -> (r: bool)
    ensures
        r == iso8601_convertible(cr_date@),
{
    let dot = rfind_char(cr_date, '.');
    let plus = rfind_char(cr_date, '+');
    let zed = rfind_char(cr_date, 'Z');
    (dot.is_none() && zed.is_some()) || (dot.is_none() && plus.is_some() && zed.is_none()) || (
    dot.is_some() && plus.is_some() && zed.is_none())
}

/// Get an ISO 8601 date from a date of the registry.
pub fn crate_to_iso8601(cr_date: &str) -> (r: String)
    requires
        iso8601_convertible(cr_date@),
    ensures
        r@ == spec_crate_to_iso8601(cr_date@),
{
    proof {
        reveal_strlit("Z");
        lemma_rfind(cr_date@, '.');
        lemma_rfind(cr_date@, '+');
    }
    let dot = rfind_char(cr_date, '.');
    let plus = rfind_char(cr_date, '+');
    let zed = rfind_char(cr_date, 'Z');
    let r = match dot {
        None => match zed {
            Some(_) => String::from_str(cr_date),
            None => {
                let i = plus.unwrap();
                String::from_str(cr_date.substring_char(0, i)).concat("Z")
            },
        },
        Some(i) => String::from_str(cr_date.substring_char(0, i)).concat("Z"),
    };
    assert(r@ =~= spec_crate_to_iso8601(cr_date@));
    r
}

/// The format of an ISO 8601 date in UTC, as `strptime` reads it.
pub open spec fn iso8601_format() -> Seq<char> {
    "%FT%TZ"@
}

/// The fields of the time that `time::strptime` reads from `date` under
/// `format`, as it leaves them: the year counted from 1900, the month counted
/// from 0, the day of the month, the hour, the minute and the second; `None`
/// where it rejects the date.
pub uninterp spec fn strptime_fields(date: Seq<char>, format: Seq<char>) -> Option<
    (int, int, int, int, int, int),
>;

/// Calls `time::strptime` and picks six fields of the time it gives:
/// `tm_year`, `tm_mon`, `tm_mday`, `tm_hour`, `tm_min`, `tm_sec`. The one
/// format that is taken is `%FT%TZ`: under it the call reads digits and fixed
/// characters only. The contract says only that the outcome is a function of
/// the two strings, named `strptime_fields`: the fields on success, and an
/// error exactly where that function has no value.
#[verifier::external_body]
fn strptime_to_fields(date: &str, format: &str) -> (r: Result<
    (i32, i32, i32, i32, i32, i32),
    time::ParseError,
>)
    requires
        format@ == iso8601_format(),
    ensures
        match r {
            Ok(f) => strptime_fields(date@, format@) == Some(
                (f.0 as int, f.1 as int, f.2 as int, f.3 as int, f.4 as int, f.5 as int),
            ),
            Err(_) => strptime_fields(date@, format@) is None,
        },
{
    match time::strptime(date, format) {
        Ok(tm) => Ok((tm.tm_year, tm.tm_mon, tm.tm_mday, tm.tm_hour, tm.tm_min, tm.tm_sec)),
        Err(e) => Err(e),
    }
}

/// The years up to and with `year` that are leap years, counted from the year
/// 0 of the calendar as it is now, carried back and forth without end.
pub open spec fn spec_leaps_through(year: int) -> int {
    year / 4 - year / 100 + year / 400
}

/// Whether a year has a 29th of February.
pub open spec fn spec_is_leap(year: int) -> bool {
    year % 4 == 0 && (year % 100 != 0 || year % 400 == 0)
}

/// The days from 1970-01-01 to the first day of a year.
pub open spec fn spec_days_before_year(year: int) -> int {
    365 * (year - 1970) + spec_leaps_through(year - 1) - spec_leaps_through(1969)
}

/// The days of a year before the first day of a month, the months counted
/// from 0 to 11.
pub open spec fn spec_days_before_month(month: int, leap: bool) -> int {
    let extra: int = if leap && month >= 2 {
        1
    } else {
        0
    };
    extra + if month <= 0 {
        0int
    } else if month == 1 {
        31
    } else if month == 2 {
        59
    } else if month == 3 {
        90
    } else if month == 4 {
        120
    } else if month == 5 {
        151
    } else if month == 6 {
        181
    } else if month == 7 {
        212
    } else if month == 8 {
        243
    } else if month == 9 {
        273
    } else if month == 10 {
        304
    } else {
        334
    }
}

/// The seconds from 1970-01-01T00:00:00Z to the time with the given fields:
/// the year counted from 1900 and the month from 0, as `strptime` leaves
/// them. Every field counts for what it is worth: a month past the eleventh
/// runs into the next year, a 30th of February is the 2nd of March, a 60th
/// second is the first of the next minute.
pub open spec fn spec_seconds_of_fields(
    year: int,
    month: int,
    day: int,
    hour: int,
    minute: int,
    second: int,
) -> int {
    let months = (year + 1900) * 12 + month;
    let y = months / 12;
    let m = months % 12;
    (spec_days_before_year(y) + spec_days_before_month(m, spec_is_leap(y)) + (day - 1)) * 86_400
        + hour * 3_600 + minute * 60 + second
}

// Years are counted below from one that lies 6,000,000 rounds of 400 years
// before the year 0: a whole number of rounds, so that leap years fall as
// they do, and far enough back that no year that the fields can give is
// below zero.
fn year_and_month(year: i32, month: i32) -> (r: (u128, u128))
    ensures
        r.0 == ((year + 1900) * 12 + month) / 12 + 2_400_000_000,
        r.1 == ((year + 1900) * 12 + month) % 12,
        r.1 < 12,
        1 <= r.0 <= 4_800_000_000,
{
    let months: i128 = (year as i128 + 1900) * 12 + month as i128;
    let shifted: u128 = (months + 28_800_000_000) as u128;
    (shifted / 12, shifted % 12)
}

fn is_leap_year(shifted_year: u128) -> (r: bool)
    requires
        shifted_year <= 4_800_000_000,
    ensures
        r == spec_is_leap(shifted_year - 2_400_000_000),
{
    shifted_year % 4 == 0 && (shifted_year % 100 != 0 || shifted_year % 400 == 0)
}

fn days_before_year(shifted_year: u128) -> (r: i128)
    requires
        1 <= shifted_year <= 4_800_000_000,
    ensures
        r == spec_days_before_year(shifted_year - 2_400_000_000),
        -900_000_000_000 <= r <= 900_000_000_000,
{
    let before: u128 = shifted_year - 1;
    let leaps: u128 = before / 4 - before / 100 + before / 400;
    assert(leaps == spec_leaps_through(shifted_year - 2_400_000_000 - 1) + 582_000_000);
    assert(spec_leaps_through(1969) == 477);
    365 * (shifted_year as i128 - 2_400_000_000 - 1970) + (leaps as i128 - 582_000_000) - 477
}

fn days_before_month(month: u128, leap: bool) -> (r: i128)
    requires
        month < 12,
    ensures
        r == spec_days_before_month(month as int, leap),
        0 <= r <= 335,
{
    let in_year: i128 = if month == 0 {
        0
    } else if month == 1 {
        31
    } else if month == 2 {
        59
    } else if month == 3 {
        90
    } else if month == 4 {
        120
    } else if month == 5 {
        151
    } else if month == 6 {
        181
    } else if month == 7 {
        212
    } else if month == 8 {
        243
    } else if month == 9 {
        273
    } else if month == 10 {
        304
    } else {
        334
    };
    if leap && month >= 2 {
        in_year + 1
    } else {
        in_year
    }
}

/// The seconds from 1970-01-01T00:00:00Z to the time with the given fields,
/// the year counted from 1900 and the month from 0.
pub fn seconds_of_fields(year: i32, month: i32, day: i32, hour: i32, minute: i32, second: i32) -> (secs:
    i64)
    ensures
        secs == spec_seconds_of_fields(
            year as int,
            month as int,
            day as int,
            hour as int,
            minute as int,
            second as int,
        ),
{
    let (shifted_year, m) = year_and_month(year, month);
    let leap = is_leap_year(shifted_year);
    let days: i128 = days_before_year(shifted_year) + days_before_month(m, leap) + (day as i128
        - 1);
    let secs: i128 = days * 86_400 + hour as i128 * 3_600 + minute as i128 * 60 + second as i128;
    secs as i64
}

/// The seconds since the epoch of an ISO 8601 date, where it has any.
pub open spec fn spec_date_sec(date: Seq<char>) -> Option<int> {
    match strptime_fields(date, iso8601_format()) {
        Some(f) => Some(spec_seconds_of_fields(f.0, f.1, f.2, f.3, f.4, f.5)),
        None => None,
    }
}

/// The seconds since the epoch of an ISO 8601 date.
pub fn date_sec(date: &str) -> (r: Result<i64, EsrError>)
    ensures
        match r {
            Ok(secs) => spec_date_sec(date@) == Some(secs as int),
            Err(e) => spec_date_sec(date@) is None && e is TimeParse,
        },
{
    match strptime_to_fields(date, "%FT%TZ") {
        Ok(f) => Ok(seconds_of_fields(f.0, f.1, f.2, f.3, f.4, f.5)),
        Err(e) => Err(EsrError::TimeParse(e)),
    }
}

/// The seconds from `then` to `now`; none where `then` lies ahead.
pub open spec fn spec_age_seconds(then: int, now: int) -> nat {
    if now >= then {
        (now - then) as nat
    } else {
        0
    }
}

/// The seconds between two moments, whichever comes first.
pub open spec fn spec_span_seconds(a: int, b: int) -> nat {
    if a >= b {
        (a - b) as nat
    } else {
        (b - a) as nat
    }
}

/// The age of an ISO 8601 date at `now`, in billionths of a month.
pub open spec fn spec_age_in_months(date: Seq<char>, now: int) -> Option<nat> {
    match spec_date_sec(date) {
        Some(then) => Some(spec_months(spec_age_seconds(then, now))),
        None => None,
    }
}

/// The time between two ISO 8601 dates, in billionths of a month.
pub open spec fn spec_span_in_months(date1: Seq<char>, date2: Seq<char>) -> Option<nat> {
    match (spec_date_sec(date1), spec_date_sec(date2)) {
        (Some(a), Some(b)) => Some(spec_months(spec_span_seconds(a, b))),
        _ => None,
    }
}

/// The seconds from `then` to `now`; none where `then` lies ahead.
pub fn age_seconds(then: i64, now: i64) -> (r: u64)
    ensures
        r as nat == spec_age_seconds(then as int, now as int),
{
    if now >= then {
        (now as i128 - then as i128) as u64
    } else {
        0
    }
}

/// The seconds between two moments, whichever comes first.
pub fn span_seconds(a: i64, b: i64) -> (r: u64)
    ensures
        r as nat == spec_span_seconds(a as int, b as int),
{
    if a >= b {
        (a as i128 - b as i128) as u64
    } else {
        (b as i128 - a as i128) as u64
    }
}

/// How long before `now` (seconds since the epoch) the date lies, in
/// billionths of a month. A date after `now` has the age zero.
pub fn age_in_months(date: &str, now: i64) -> (r: Result<u128, EsrError>)
    ensures
        match r {
            Ok(m) => spec_age_in_months(date@, now as int) == Some(m as nat) && m <= MAX_MONTHS,
            Err(e) => spec_age_in_months(date@, now as int) is None && e is TimeParse,
        },
{
    match date_sec(date) {
        Ok(then) => Ok(months(age_seconds(then, now))),
        Err(e) => Err(e),
    }
}

/// The time between the two dates, in billionths of a month.
pub fn span_in_months(date1: &str, date2: &str) -> (r: Result<u128, EsrError>)
    ensures
        match r {
            Ok(m) => spec_span_in_months(date1@, date2@) == Some(m as nat) && m <= MAX_MONTHS,
            Err(e) => spec_span_in_months(date1@, date2@) is None && e is TimeParse,
        },
{
    match date_sec(date1) {
        Ok(a) => match date_sec(date2) {
            Ok(b) => Ok(months(span_seconds(a, b))),
            Err(e) => Err(e),
        },
        Err(e) => Err(e),
    }
}

/// Why a date of the registry has no age: it is not in one of the registry's
/// formats, or it is and cannot be read all the same.
pub enum DateFault {
    Format,
    Unreadable,
}

/// The error that reports a fault: `Other` for the format, `TimeParse` for a
/// date that cannot be read.
pub open spec fn is_fault(e: EsrError, fault: DateFault) -> bool {
    match fault {
        DateFault::Format => e is Other && e->Other_0@ == "unexpected date format"@,
        DateFault::Unreadable => e is TimeParse,
    }
}

/// The seconds since the epoch of a date of the registry.
pub open spec fn spec_crate_date_sec(cr_date: Seq<char>) -> Result<int, DateFault> {
    if !iso8601_convertible(cr_date) {
        Err(DateFault::Format)
    } else {
        match spec_date_sec(spec_crate_to_iso8601(cr_date)) {
            Some(secs) => Ok(secs),
            None => Err(DateFault::Unreadable),
        }
    }
}

/// The age at `now` of a date of the registry, in seconds.
pub open spec fn spec_crate_age_seconds(cr_date: Seq<char>, now: int) -> Result<nat, DateFault> {
    match spec_crate_date_sec(cr_date) {
        Ok(then) => Ok(spec_age_seconds(then, now)),
        Err(fault) => Err(fault),
    }
}

/// The age at `now` of a date of the registry, in billionths of a month.
pub open spec fn spec_crate_age(cr_date: Seq<char>, now: int) -> Result<nat, DateFault> {
    match spec_crate_age_seconds(cr_date, now) {
        Ok(secs) => Ok(spec_months(secs)),
        Err(fault) => Err(fault),
    }
}

/// The time between two dates of the registry, in billionths of a month. The
/// format of both is looked at before either is read.
pub open spec fn spec_crate_span(cr_date1: Seq<char>, cr_date2: Seq<char>) -> Result<
    nat,
    DateFault,
> {
    if !iso8601_convertible(cr_date1) || !iso8601_convertible(cr_date2) {
        Err(DateFault::Format)
    } else {
        match (spec_crate_date_sec(cr_date1), spec_crate_date_sec(cr_date2)) {
            (Ok(a), Ok(b)) => Ok(spec_months(spec_span_seconds(a, b))),
            _ => Err(DateFault::Unreadable),
        }
    }
}

/// The seconds since the epoch of a date of the registry. A date in none of
/// the registry's formats is an `Other` error, one that cannot be read a
/// `TimeParse` error.
pub fn crate_date_sec(cr_date: &str) -> (r: Result<i64, EsrError>)
    ensures
        match r {
            Ok(secs) => spec_crate_date_sec(cr_date@) == Ok::<int, DateFault>(secs as int),
            Err(e) => spec_crate_date_sec(cr_date@) is Err && is_fault(
                e,
                spec_crate_date_sec(cr_date@)->Err_0,
            ),
        },
{
    if !is_iso8601_convertible(cr_date) {
        return Err(EsrError::other("unexpected date format"));
    }
    let iso = crate_to_iso8601(cr_date);
    date_sec(iso.as_str())
}

/// How many seconds before `now` the date of the registry lies.
pub fn crate_age_in_seconds(cr_date: &str, now: i64) -> (r: Result<u64, EsrError>)
    ensures
        match r {
            Ok(secs) => spec_crate_age_seconds(cr_date@, now as int) == Ok::<nat, DateFault>(
                secs as nat,
            ),
            Err(e) => spec_crate_age_seconds(cr_date@, now as int) is Err && is_fault(
                e,
                spec_crate_age_seconds(cr_date@, now as int)->Err_0,
            ),
        },
{
    match crate_date_sec(cr_date) {
        Ok(then) => Ok(age_seconds(then, now)),
        Err(e) => Err(e),
    }
}

/// The age at `now` of a date of the registry, in billionths of a month.
pub fn crate_age_in_months(cr_date: &str, now: i64) -> (r: Result<u128, EsrError>)
    ensures
        match r {
            Ok(m) => spec_crate_age(cr_date@, now as int) == Ok::<nat, DateFault>(m as nat) && m
                <= MAX_MONTHS,
            Err(e) => spec_crate_age(cr_date@, now as int) is Err && is_fault(
                e,
                spec_crate_age(cr_date@, now as int)->Err_0,
            ),
        },
{
    match crate_age_in_seconds(cr_date, now) {
        Ok(secs) => Ok(months(secs)),
        Err(e) => Err(e),
    }
}

/// The time between two dates of the registry, in billionths of a month.
pub fn crate_span_in_months(cr_date1: &str, cr_date2: &str) -> (r: Result<u128, EsrError>)
    ensures
        match r {
            Ok(m) => spec_crate_span(cr_date1@, cr_date2@) == Ok::<nat, DateFault>(m as nat) && m
                <= MAX_MONTHS,
            Err(e) => spec_crate_span(cr_date1@, cr_date2@) is Err && is_fault(
                e,
                spec_crate_span(cr_date1@, cr_date2@)->Err_0,
            ),
        },
{
    if !is_iso8601_convertible(cr_date1) || !is_iso8601_convertible(cr_date2) {
        return Err(EsrError::other("unexpected date format"));
    }
    match crate_date_sec(cr_date1) {
        Ok(a) => match crate_date_sec(cr_date2) {
            Ok(b) => Ok(months(span_seconds(a, b))),
            Err(e) => Err(e),
        },
        Err(e) => Err(e),
    }
}

// ---------------------------------------------------------------------------
// Repository paths
// ---------------------------------------------------------------------------

/// The text of capture group `group` in the leftmost match of the regular
/// expression `pattern` in `text`, as the `regex` crate finds it; `None`
/// where the pattern is not a regular expression, where it does not match,
/// or where the group took no part in the match.
pub uninterp spec fn regex_capture_text(pattern: Seq<char>, text: Seq<char>, group: int) -> Option<
    Seq<char>,
>;

/// Compiles `pattern` with `regex::Regex::new`, searches `text` with
/// `Regex::captures` and copies out one group with `Captures::get`. The
/// contract says only that the outcome is a function of the three arguments,
/// named `regex_capture_text`.
#[verifier::external_body]
fn regex_capture(pattern: &str, text: &str, group: usize) -> (r: Option<String>)
    ensures
        match r {
            Some(found) => regex_capture_text(pattern@, text@, group as int) == Some(found@),
            None => regex_capture_text(pattern@, text@, group as int) is None,
        },
{
    match regex::Regex::new(pattern) {
        Ok(re) => match re.captures(text) {
            Some(caps) => caps.get(group).map(|m| String::from(m.as_str())),
            None => None,
        },
        Err(_) => None,
    }
}

/// The shape of a GitHub address: anything up to `github.com`, one or more of
/// `/` and `:`, then an owner and a repository with a `/` between them, then
/// `.git` at the end, the end itself, or a further path. The first group holds
/// owner and repository.
pub open spec fn github_pattern() -> Seq<char> {
    ".*github.com[/:]+([^:/]+?/[^:/]+?)(.git$|$|/.*)"@
}

/// The `owner/repo` path in a GitHub address, where `repo` is one: what the
/// first group of the pattern takes, where that is a path of exactly two
/// parts.
pub open spec fn spec_github_repo(repo: Seq<char>) -> Option<Seq<char>> {
    match regex_capture_text(github_pattern(), repo, 1) {
        Some(path) => if is_repo_path(path) {
            Some(path)
        } else {
            None
        },
        None => None,
    }
}

/// The shape of a repository path that needs no address around it: an owner
/// and a repository with one `/` between them, neither of them empty, and no
/// `/` or `:` anywhere else.
pub open spec fn is_repo_path(s: Seq<char>) -> bool {
    &&& !s.contains(':')
    &&& match spec_rfind(s, '/') {
        Some(i) => 0 < i < s.len() - 1 && !s.take(i).contains('/'),
        None => false,
    }
}

/// Whether the text is a repository path as it stands.
pub fn has_repo_path_shape(text: &str) -> (r: bool)
    ensures
        r == is_repo_path(text@),
{
    if contains_char(text, ':') {
        return false;
    }
    match rfind_char(text, '/') {
        Some(i) => {
            proof {
                lemma_rfind(text@, '/');
            }
            let len = text.unicode_len();
            if i == 0 || i >= len - 1 {
                return false;
            }
            !contains_char(text.substring_char(0, i), '/')
        },
        None => false,
    }
}

/// The `owner/repo` path of a repository from its GitHub address: an owner
/// and a repository with one `/` between them, and nothing else.
pub fn github_repo(repo: &str) -> (r: Option<String>)
    ensures
        match r {
            Some(id) => spec_github_repo(repo@) == Some(id@) && is_repo_path(id@),
            None => spec_github_repo(repo@) is None,
        },
{
    match regex_capture(".*github.com[/:]+([^:/]+?/[^:/]+?)(.git$|$|/.*)", repo, 1) {
        Some(path) => {
            if has_repo_path_shape(path.as_str()) {
                Some(path)
            } else {
                None
            }
        },
        None => None,
    }
}

/// A repository path without the `.git` at its end, where it has one and is
/// a repository path without it too.
pub open spec fn spec_strip_git(path: Seq<char>) -> Seq<char> {
    if path.len() >= 4 && path.skip(path.len() - 4) == ".git"@ && is_repo_path(
        path.take(path.len() - 4),
    ) {
        path.take(path.len() - 4)
    } else {
        path
    }
}

/// A repository path without the `.git` at its end.
pub fn strip_git(path: &str) -> (r: String)
    ensures
        r@ == spec_strip_git(path@),
{
    let len = path.unicode_len();
    if len >= 4 {
        let end = path.substring_char(len - 4, len);
        let front = path.substring_char(0, len - 4);
        assert(end@ =~= path@.skip(path@.len() - 4));
        assert(front@ =~= path@.take(path@.len() - 4));
        if str_eq(end, ".git") && has_repo_path_shape(front) {
            return String::from_str(front);
        }
    }
    String::from_str(path)
}

} // verus!

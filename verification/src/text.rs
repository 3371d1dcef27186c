//! Text helpers: decimal rendering of integers, splitting and joining.

use vstd::prelude::*;

verus! {

/// The decimal digit character for `d` (0 <= d < 10).
pub open spec fn digit_char(d: int) -> char {
    if d == 0 { '0' }
    else if d == 1 { '1' }
    else if d == 2 { '2' }
    else if d == 3 { '3' }
    else if d == 4 { '4' }
    else if d == 5 { '5' }
    else if d == 6 { '6' }
    else if d == 7 { '7' }
    else if d == 8 { '8' }
    else { '9' }
}

/// Decimal notation of a natural number, without leading zeros.
pub open spec fn decimal(n: nat) -> Seq<char>
    decreases n,
{
    if n < 10 {
        seq![digit_char(n as int)]
    } else {
        decimal(n / 10).push(digit_char((n % 10) as int))
    }
}

/// Decimal notation of an integer, with a leading `-` when it is negative.
pub open spec fn decimal_int(x: int) -> Seq<char> {
    if x < 0 {
        seq!['-'] + decimal((-x) as nat)
    } else {
        decimal(x as nat)
    }
}

fn digit_str(d: u64) -> (r: &'static str)
    requires
        d < 10,
    ensures
        r@ == seq![digit_char(d as int)],
{
    if d == 0 {
        proof { reveal_strlit("0"); }
        assert("0"@ =~= seq!['0']);
        "0"
    } else if d == 1 {
        proof { reveal_strlit("1"); }
        assert("1"@ =~= seq!['1']);
        "1"
    } else if d == 2 {
        proof { reveal_strlit("2"); }
        assert("2"@ =~= seq!['2']);
        "2"
    } else if d == 3 {
        proof { reveal_strlit("3"); }
        assert("3"@ =~= seq!['3']);
        "3"
    } else if d == 4 {
        proof { reveal_strlit("4"); }
        assert("4"@ =~= seq!['4']);
        "4"
    } else if d == 5 {
        proof { reveal_strlit("5"); }
        assert("5"@ =~= seq!['5']);
        "5"
    } else if d == 6 {
        proof { reveal_strlit("6"); }
        assert("6"@ =~= seq!['6']);
        "6"
    } else if d == 7 {
        proof { reveal_strlit("7"); }
        assert("7"@ =~= seq!['7']);
        "7"
    } else if d == 8 {
        proof { reveal_strlit("8"); }
        assert("8"@ =~= seq!['8']);
        "8"
    } else {
        proof { reveal_strlit("9"); }
        assert("9"@ =~= seq!['9']);
        "9"
    }
}

/// Appends the decimal notation of `n` to `s`.
pub fn push_decimal(s: &mut String, n: u64)
    ensures
        final(s)@ == old(s)@ + decimal(n as nat),
    decreases n,
{
    if n >= 10 {
        push_decimal(s, n / 10);
    }
    let d = digit_str(n % 10);
    s.append(d);
    assert(final(s)@ =~= old(s)@ + decimal(n as nat));
}

/// Appends the decimal notation of `x` to `s`, with a `-` when negative.
pub fn push_decimal_i64(s: &mut String, x: i64)
    ensures
        final(s)@ == old(s)@ + decimal_int(x as int),
{
    if x < 0 {
        proof { reveal_strlit("-"); }
        s.append("-");
        let m: i128 = 0i128 - (x as i128);
        push_decimal(s, m as u64);
        assert(final(s)@ =~= old(s)@ + decimal_int(x as int));
    } else {
        push_decimal(s, x as u64);
    }
}

/// The decimal notation of `n`, as `n.to_string()` writes it.
pub fn u64_to_string(n: u64) -> (r: String)
    ensures
        r@ == decimal(n as nat),
{
    let mut s = String::new();
    push_decimal(&mut s, n);
    assert(s@ =~= decimal(n as nat));
    s
}

/// The decimal notation of `x`, as `x.to_string()` writes it.
pub fn i64_to_string(x: i64) -> (r: String)
    ensures
        r@ == decimal_int(x as int),
{
    let mut s = String::new();
    push_decimal_i64(&mut s, x);
    assert(s@ =~= decimal_int(x as int));
    s
}


/// The pieces of `s` between occurrences of `sep`, as `str::split` yields them
/// for a one-character pattern: `n` separators give `n + 1` pieces.
pub open spec fn split_on(s: Seq<char>, sep: char) -> Seq<Seq<char>>
    decreases s.len(),
{
    if s.len() == 0 {
        seq![Seq::<char>::empty()]
    } else {
        let rest = split_on(s.drop_last(), sep);
        if s.last() == sep {
            rest.push(Seq::<char>::empty())
        } else {
            rest.update(rest.len() - 1, rest.last().push(s.last()))
        }
    }
}

/// Splits `s` at every occurrence of `sep`.
pub fn split_char(s: &str, sep: char) -> (r: Vec<String>)
    ensures
        r@.map_values(|p: String| p@) == split_on(s@, sep),
{
    let n = s.unicode_len();
    let mut parts: Vec<String> = Vec::new();
    let mut start: usize = 0;
    let mut i: usize = 0;
    assert(s@.take(0) =~= Seq::<char>::empty());
    while i < n
        invariant
            n == s@.len(),
            start <= i <= n,
            split_on(s@.take(i as int), sep) =~= parts@.map_values(|p: String| p@).push(
                s@.subrange(start as int, i as int),
            ),
        decreases n - i,
    {
        let c = s.get_char(i);
        let ghost prev = s@.take(i as int);
        assert(s@.take(i + 1).drop_last() =~= prev);
        assert(s@.take(i + 1).last() == c);
        if c == sep {
            let piece = s.substring_char(start, i);
            let ghost pv = parts@.map_values(|p: String| p@);
            parts.push(String::from_str(piece));
            assert(parts@.map_values(|p: String| p@) =~= pv.push(s@.subrange(start as int, i as int)));
            start = i + 1;
            assert(s@.subrange(start as int, i + 1) =~= Seq::<char>::empty());
        } else {
            assert(s@.subrange(start as int, i + 1) =~= s@.subrange(start as int, i as int).push(c));
        }
        i = i + 1;
    }
    let piece = s.substring_char(start, n);
    let ghost pv = parts@.map_values(|p: String| p@);
    parts.push(String::from_str(piece));
    assert(s@.take(n as int) =~= s@);
    assert(parts@.map_values(|p: String| p@) =~= pv.push(s@.subrange(start as int, n as int)));
    parts
}

/// The items joined with `sep` between consecutive items.
pub open spec fn join(items: Seq<Seq<char>>, sep: Seq<char>) -> Seq<char>
    decreases items.len(),
{
    if items.len() == 0 {
        Seq::<char>::empty()
    } else if items.len() == 1 {
        items[0]
    } else {
        join(items.drop_last(), sep) + sep + items.last()
    }
}

pub proof fn lemma_join_push(items: Seq<Seq<char>>, sep: Seq<char>, x: Seq<char>)
    ensures
        join(items.push(x), sep) == if items.len() == 0 {
            x
        } else {
            join(items, sep) + sep + x
        },
{
    assert(items.push(x).drop_last() =~= items);
}

/// Joins the strings of `items` with `sep`, as `items.join(sep)` does.
pub fn join_strings(items: &Vec<String>, sep: &str) -> (r: String)
    ensures
        r@ == join(items@.map_values(|p: String| p@), sep@),
{
    let ghost views = items@.map_values(|p: String| p@);
    let mut r = String::new();
    let mut i: usize = 0;
    assert(views.take(0) =~= Seq::<Seq<char>>::empty());
    while i < items.len()
        invariant
            i <= items.len(),
            views == items@.map_values(|p: String| p@),
            r@ == join(views.take(i as int), sep@),
        decreases items.len() - i,
    {
        proof {
            assert(views.take(i + 1) =~= views.take(i as int).push(views[i as int]));
            lemma_join_push(views.take(i as int), sep@, views[i as int]);
        }
        if i > 0 {
            r.append(sep);
        }
        r.append(items[i].as_str());
        i = i + 1;
    }
    assert(views.take(items.len() as int) =~= views);
    r
}


/// A unit result with its error text taken as a sequence of characters.
pub open spec fn unit_result_view(r: Result<(), String>) -> Result<(), Seq<char>> {
    match r {
        Ok(()) => Ok(()),
        Err(e) => Err(e@),
    }
}

/// An ASCII decimal digit.
pub open spec fn is_digit(c: char) -> bool {
    '0' <= c && c <= '9'
}

/// The number that a sequence of ASCII digits denotes.
pub open spec fn digits_value(s: Seq<char>) -> nat
    decreases s.len(),
{
    if s.len() == 0 {
        0
    } else {
        digits_value(s.drop_last()) * 10 + ((s.last() as int) - ('0' as int)) as nat
    }
}

/// The number that `s` denotes when it is a nonempty run of ASCII digits.
pub open spec fn digits_number(s: Seq<char>) -> Option<int> {
    if s.len() > 0 && (forall|i: int| 0 <= i < s.len() ==> is_digit(#[trigger] s[i])) {
        Some(digits_value(s) as int)
    } else {
        None
    }
}

/// The integer that std's `from_str` reads from `s`: an optional `+` (or,
/// where `signed`, `-`) followed by one or more ASCII digits, and nothing else.
/// The range of the target type is not checked here.
pub open spec fn integer_text(s: Seq<char>, signed: bool) -> Option<int> {
    if s.len() > 0 && s[0] == '+' {
        digits_number(s.drop_first())
    } else if signed && s.len() > 0 && s[0] == '-' {
        match digits_number(s.drop_first()) {
            Some(v) => Some(-v),
            None => None,
        }
    } else {
        digits_number(s)
    }
}

/// `i64::from_str(s)`, with the error reduced to `None`.
pub open spec fn parse_i64_spec(s: Seq<char>) -> Option<i64> {
    match integer_text(s, true) {
        Some(v) => if i64::MIN <= v <= i64::MAX { Some(v as i64) } else { None },
        None => None,
    }
}

/// `u64::from_str(s)`, with the error reduced to `None`.
pub open spec fn parse_u64_spec(s: Seq<char>) -> Option<u64> {
    match integer_text(s, false) {
        Some(v) => if 0 <= v <= u64::MAX { Some(v as u64) } else { None },
        None => None,
    }
}


/// Joins the decimal notations of `items` with `sep`.
pub fn join_i64(items: &Vec<i64>, sep: &str) -> (r: String)
    ensures
        r@ == join(items@.map_values(|x: i64| decimal_int(x as int)), sep@),
{
    let ghost views = items@.map_values(|x: i64| decimal_int(x as int));
    let mut r = String::new();
    let mut i: usize = 0;
    assert(views.take(0) =~= Seq::<Seq<char>>::empty());
    while i < items.len()
        invariant
            i <= items.len(),
            views == items@.map_values(|x: i64| decimal_int(x as int)),
            r@ == join(views.take(i as int), sep@),
        decreases items.len() - i,
    {
        proof {
            assert(views.take(i + 1) =~= views.take(i as int).push(views[i as int]));
            lemma_join_push(views.take(i as int), sep@, views[i as int]);
        }
        if i > 0 {
            r.append(sep);
        }
        push_decimal_i64(&mut r, items[i]);
        i = i + 1;
    }
    assert(views.take(items.len() as int) =~= views);
    r
}


proof fn lemma_decimal_digits(n: nat)
    ensures
        decimal(n).len() > 0,
        forall|i: int| 0 <= i < decimal(n).len() ==> is_digit(#[trigger] decimal(n)[i]),
        digits_value(decimal(n)) == n,
    decreases n,
{
    assert(forall|d: int| 0 <= d < 10 ==> is_digit(#[trigger] digit_char(d)) && (digit_char(d) as int)
        - ('0' as int) == d);
    let dd = (n % 10) as int;
    assert(is_digit(digit_char(dd)) && (digit_char(dd) as int) - ('0' as int) == dd);
    if n < 10 {
        assert(decimal(n).drop_last() =~= Seq::<char>::empty());
        assert(digits_value(Seq::<char>::empty()) == 0);
        assert(dd == n);
        assert(decimal(n).last() == digit_char(dd));
        assert(digits_value(decimal(n)) == n);
    } else {
        lemma_decimal_digits(n / 10);
        let s = decimal(n);
        assert(s.drop_last() == decimal(n / 10));
        assert(s.last() == digit_char(dd));
        assert(digits_value(s) == digits_value(decimal(n / 10)) * 10 + dd);
        assert((n / 10) * 10 + dd == n);
        assert forall|i: int| 0 <= i < s.len() implies is_digit(#[trigger] s[i]) by {
            if i < s.len() - 1 {
                assert(s[i] == decimal(n / 10)[i]);
            }
        }
    }
}

/// Reading back the decimal notation of an `i64` gives the number itself.
pub proof fn law_i64_text_round_trip(x: i64)
    ensures
        parse_i64_spec(decimal_int(x as int)) == Some(x),
{
    if x < 0 {
        let d = decimal((-x) as nat);
        lemma_decimal_digits((-x) as nat);
        let s = seq!['-'] + d;
        assert(s.drop_first() =~= d);
        assert(s[0] == '-');
    } else {
        lemma_decimal_digits(x as nat);
        assert(is_digit(decimal(x as nat)[0]));
    }
}

/// Reading back the decimal notation of a `u64` gives the number itself.
pub proof fn law_u64_text_round_trip(n: u64)
    ensures
        parse_u64_spec(decimal(n as nat)) == Some(n),
{
    lemma_decimal_digits(n as nat);
    assert(is_digit(decimal(n as nat)[0]));
}


/// `s` holds no character `c`.
pub open spec fn lacks(s: Seq<char>, c: char) -> bool {
    forall|i: int| 0 <= i < s.len() ==> s[i] != c
}

proof fn lemma_split_append(a: Seq<char>, c: char, x: Seq<char>)
    requires
        lacks(x, c),
    ensures
        split_on(a + seq![c] + x, c) == split_on(a, c).push(x),
    decreases x.len(),
{
    if x.len() == 0 {
        assert(a + seq![c] + x =~= a.push(c));
        assert((a.push(c)).drop_last() =~= a);
        assert(x =~= Seq::<char>::empty());
        assert(split_on(a.push(c), c) == split_on(a, c).push(Seq::<char>::empty()));
    } else {
        let xp = x.drop_last();
        assert(lacks(xp, c)) by {
            assert forall|i: int| 0 <= i < xp.len() implies xp[i] != c by {
                assert(xp[i] == x[i]);
            }
        }
        lemma_split_append(a, c, xp);
        let s = a + seq![c] + x;
        assert(s.drop_last() =~= a + seq![c] + xp);
        assert(s.last() == x.last());
        assert(x.last() == x[x.len() - 1]);
        assert(s.last() != c);
        assert(xp.push(x.last()) =~= x);
        let rest = split_on(a, c).push(xp);
        assert(rest.last() == xp);
        assert(rest.update(rest.len() - 1, xp.push(x.last())) =~= split_on(a, c).push(x));
        assert(split_on(s, c) == rest.update(rest.len() - 1, rest.last().push(s.last())));
    }
}

proof fn lemma_split_lacking(x: Seq<char>, c: char)
    requires
        lacks(x, c),
    ensures
        split_on(x, c) == seq![x],
    decreases x.len(),
{
    if x.len() > 0 {
        let xp = x.drop_last();
        assert(lacks(xp, c)) by {
            assert forall|i: int| 0 <= i < xp.len() implies xp[i] != c by {
                assert(xp[i] == x[i]);
            }
        }
        lemma_split_lacking(xp, c);
        assert(x.last() == x[x.len() - 1]);
        assert(xp.push(x.last()) =~= x);
        assert(seq![xp].last() == xp);
        assert(seq![xp].update(0, xp.push(x.last())) =~= seq![x]);
    } else {
        assert(x =~= Seq::<char>::empty());
    }
}

/// Splitting items joined with a one-character separator that no item holds
/// gives the items back.
pub proof fn law_split_join(items: Seq<Seq<char>>, c: char)
    requires
        items.len() > 0,
        forall|i: int| 0 <= i < items.len() ==> lacks(#[trigger] items[i], c),
    ensures
        split_on(join(items, seq![c]), c) == items,
    decreases items.len(),
{
    if items.len() == 1 {
        lemma_split_lacking(items[0], c);
        assert(seq![items[0]] =~= items);
    } else {
        let ip = items.drop_last();
        law_split_join(ip, c);
        assert(ip.push(items.last()) =~= items);
        lemma_join_push(ip, seq![c], items.last());
        lemma_split_append(join(ip, seq![c]), c, items.last());
    }
}

/// The decimal notation of an integer holds only digits and `-`.
pub proof fn lemma_decimal_int_chars(x: int, c: char)
    requires
        !is_digit(c),
        c != '-',
    ensures
        lacks(decimal_int(x), c),
{
    if x < 0 {
        lemma_decimal_digits((-x) as nat);
        let s = seq!['-'] + decimal((-x) as nat);
        assert forall|i: int| 0 <= i < s.len() implies s[i] != c by {
            if i > 0 {
                assert(s[i] == decimal((-x) as nat)[i - 1]);
            }
        }
    } else {
        lemma_decimal_digits(x as nat);
    }
}

} // verus!

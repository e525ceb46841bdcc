//! Plain text helpers with exact contracts: decimal numbers, field joins
//! and the `timestamp:digest` split.
use vstd::prelude::*;
use vstd::string::*;

verus! {

/// The ten decimal digits, in order.
pub open spec fn digit_chars() -> Seq<char> {
    seq!['0', '1', '2', '3', '4', '5', '6', '7', '8', '9']
}

pub open spec fn is_digit(c: char) -> bool {
    48 <= (c as u32) && (c as u32) <= 57
}

pub open spec fn digit_value(c: char) -> nat {
    ((c as u32) - 48) as nat
}

pub open spec fn all_digits(s: Seq<char>) -> bool {
    forall|i: int| 0 <= i < s.len() ==> is_digit(#[trigger] s[i])
}

/// The number that a string of decimal digits denotes.
pub open spec fn digits_value(s: Seq<char>) -> nat
    decreases s.len(),
{
    if s.len() == 0 {
        0
    } else {
        digits_value(s.drop_last()) * 10 + digit_value(s.last())
    }
}

/// Decimal notation of `n`, without leading zeros.
pub open spec fn decimal(n: nat) -> Seq<char>
    decreases n,
{
    if n < 10 {
        seq![digit_chars()[n as int]]
    } else {
        decimal(n / 10).push(digit_chars()[(n % 10) as int])
    }
}

/// What parsing `s` as a `u64` yields: an optional `+`, then one or more
/// decimal digits whose value fits in 64 bits.
pub open spec fn parse_u64_spec(s: Seq<char>) -> Option<u64> {
    let d = if s.len() > 0 && s[0] == '+' { s.drop_first() } else { s };
    if d.len() > 0 && all_digits(d) && digits_value(d) <= u64::MAX {
        Some(digits_value(d) as u64)
    } else {
        None
    }
}

/// `fields` joined with `delim` between each two neighbours.
pub open spec fn join(fields: Seq<Seq<char>>, delim: Seq<char>) -> Seq<char>
    decreases fields.len(),
{
    if fields.len() == 0 {
        Seq::empty()
    } else if fields.len() == 1 {
        fields[0]
    } else {
        join(fields.drop_last(), delim) + delim + fields.last()
    }
}

pub open spec fn no_colon(s: Seq<char>) -> bool {
    forall|i: int| 0 <= i < s.len() ==> #[trigger] s[i] != ':'
}

/// `s` holds exactly one `:`; the result is what stands before and after it.
pub open spec fn split_colon_spec(s: Seq<char>) -> Option<(Seq<char>, Seq<char>)> {
    if exists|i: int|
        0 <= i < s.len() && s[i] == ':' && no_colon(#[trigger] s.take(i)) && no_colon(s.skip(i + 1))
    {
        let i = choose|i: int|
            0 <= i < s.len() && s[i] == ':' && no_colon(#[trigger] s.take(i)) && no_colon(
                s.skip(i + 1),
            );
        Some((s.take(i), s.skip(i + 1)))
    } else {
        None
    }
}

proof fn lemma_digit_chars()
    ensures
        forall|d: int| 0 <= d < 10 ==> is_digit(#[trigger] digit_chars()[d]) && digit_value(
            digit_chars()[d],
        ) == d,
{
    assert forall|d: int| 0 <= d < 10 implies is_digit(#[trigger] digit_chars()[d])
        && digit_value(digit_chars()[d]) == d by {
        if d == 0 {} else if d == 1 {} else if d == 2 {} else if d == 3 {} else if d == 4 {
        } else if d == 5 {} else if d == 6 {} else if d == 7 {} else if d == 8 {} else {}
    }
}

/// Decimal notation reads back as the number it was made from.
pub proof fn lemma_decimal_digits(n: nat)
    ensures
        decimal(n).len() > 0,
        all_digits(decimal(n)),
        digits_value(decimal(n)) == n,
        decimal(n)[0] != '+',
    decreases n,
{
    lemma_digit_chars();
    if n < 10 {
        assert(decimal(n).drop_last() =~= Seq::<char>::empty());
        assert(digits_value(Seq::<char>::empty()) == 0);
        assert(decimal(n).last() == digit_chars()[n as int]);
    } else {
        lemma_decimal_digits(n / 10);
        let p = decimal(n / 10);
        let q = decimal(n);
        assert(q.drop_last() =~= p);
        assert(q.last() == digit_chars()[(n % 10) as int]);
        assert(digit_value(q.last()) == n % 10);
        assert(digits_value(q) == digits_value(p) * 10 + n % 10);
        assert forall|i: int| 0 <= i < q.len() implies is_digit(#[trigger] q[i]) by {
            if i < p.len() {
                assert(q[i] == p[i]);
            }
        }
    }
}

pub proof fn lemma_parse_decimal(n: u64)
    ensures
        parse_u64_spec(decimal(n as nat)) == Some(n),
{
    lemma_decimal_digits(n as nat);
}

proof fn lemma_value_grows(s: Seq<char>, j: int, k: int)
    requires
        0 <= j <= k <= s.len(),
    ensures
        digits_value(s.take(j)) <= digits_value(s.take(k)),
    decreases k - j,
{
    if j < k {
        lemma_value_grows(s, j, k - 1);
        assert(s.take(k).drop_last() =~= s.take(k - 1));
    }
}

/// Parses a decimal `u64` as `str::parse` does.
pub fn parse_u64(s: &str) -> (r: Option<u64>)
    ensures
        r == parse_u64_spec(s@),
{
    let len = s.unicode_len();
    let start: usize = if len > 0 && s.get_char(0) == '+' {
        1
    } else {
        0
    };
    let ghost d = if s@.len() > 0 && s@[0] == '+' { s@.drop_first() } else { s@ };
    assert(d =~= s@.skip(start as int));
    if start == len {
        return None;
    }
    let mut v: u64 = 0;
    let mut i: usize = start;
    while i < len
        invariant
            start <= i <= len,
            len == s@.len(),
            d =~= s@.skip(start as int),
            d == (if s@.len() > 0 && s@[0] == '+' { s@.drop_first() } else { s@ }),
            all_digits(d.take(i - start)),
            v as nat == digits_value(d.take(i - start)),
        decreases len - i,
    {
        let c = s.get_char(i);
        let ghost k = i - start;
        assert(d.take(k + 1).drop_last() =~= d.take(k));
        assert(d[k] == c);
        let cu = c as u32;
        if !(48 <= cu && cu <= 57) {
            assert(!is_digit(d[k]));
            assert(!all_digits(d));
            return None;
        }
        let dv: u64 = (cu - 48) as u64;
        assert(all_digits(d.take(k + 1))) by {
            assert forall|j: int| 0 <= j < k + 1 implies is_digit(#[trigger] d.take(k + 1)[j]) by {
                if j < k {
                    assert(d.take(k + 1)[j] == d.take(k)[j]);
                }
            }
        }
        assert(digits_value(d.take(k + 1)) == v * 10 + dv);
        if v > (u64::MAX - dv) / 10 {
            proof {
                assert(v * 10 + dv > u64::MAX) by (nonlinear_arith)
                    requires
                        v > (u64::MAX - dv) / 10,
                        dv <= 9,
                ;
                lemma_value_grows(d, k + 1, d.len() as int);
                assert(d.take(d.len() as int) =~= d);
            }
            return None;
        }
        v = v * 10 + dv;
        i = i + 1;
    }
    assert(d.take(len - start) =~= d);
    Some(v)
}

/// Decimal notation of `n`.
pub fn decimal_string(n: u64) -> (r: String)
    ensures
        r@ == decimal(n as nat),
    decreases n,
{
    let digits = "0123456789";
    proof {
        reveal_strlit("0123456789");
        assert(digits@ =~= digit_chars());
    }
    let d = (n % 10) as usize;
    let last = digits.substring_char(d, d + 1);
    if n < 10 {
        let r = String::from_str(last);
        assert(r@ =~= decimal(n as nat));
        r
    } else {
        let mut r = decimal_string(n / 10);
        r.append(last);
        assert(r@ =~= decimal(n as nat));
        r
    }
}

/// Text made of two colon-free parts around one `:` splits back into them.
pub proof fn lemma_split_joined(a: Seq<char>, b: Seq<char>)
    requires
        no_colon(a),
        no_colon(b),
    ensures
        split_colon_spec(a + seq![':'] + b) == Some((a, b)),
{
    let s = a + seq![':'] + b;
    let k = a.len() as int;
    assert(s.take(k) =~= a);
    assert(s.skip(k + 1) =~= b);
    assert(s[k] == ':');
    let i = choose|i: int|
        0 <= i < s.len() && s[i] == ':' && no_colon(#[trigger] s.take(i)) && no_colon(s.skip(i + 1));
    if i < k {
        assert(s.take(k)[i] == ':');
    } else if i > k {
        assert(s.take(i)[k] == ':');
    }
}

/// `delim` before each of `fields`, all concatenated.
pub open spec fn prefixed(fields: Seq<Seq<char>>, delim: Seq<char>) -> Seq<char>
    decreases fields.len(),
{
    if fields.len() == 0 {
        Seq::empty()
    } else {
        prefixed(fields.drop_last(), delim) + delim + fields.last()
    }
}

/// What a join holds before field `i`.
pub open spec fn join_before(fields: Seq<Seq<char>>, i: int, delim: Seq<char>) -> Seq<char> {
    if i == 0 {
        Seq::empty()
    } else {
        join(fields.take(i), delim) + delim
    }
}

/// A join is what stands before field `i`, that field, and the rest with
/// their delimiters.
pub proof fn lemma_join_around(fields: Seq<Seq<char>>, i: int, delim: Seq<char>)
    requires
        0 <= i < fields.len(),
    ensures
        join(fields, delim) == join_before(fields, i, delim) + fields[i] + prefixed(
            fields.skip(i + 1),
            delim,
        ),
    decreases fields.len(),
{
    let n = fields.len() as int;
    if n == i + 1 {
        assert(fields.skip(i + 1) =~= Seq::<Seq<char>>::empty());
        if i > 0 {
            assert(fields.drop_last() =~= fields.take(i));
        }
        assert(join(fields, delim) =~= join_before(fields, i, delim) + fields[i]);
    } else {
        let d = fields.drop_last();
        lemma_join_around(d, i, delim);
        assert(d.take(i) =~= fields.take(i));
        assert(fields.skip(i + 1).drop_last() =~= d.skip(i + 1));
        assert(fields.skip(i + 1).last() == fields.last());
        assert(join(fields, delim) =~= join_before(fields, i, delim) + fields[i] + prefixed(
            fields.skip(i + 1),
            delim,
        ));
    }
}

/// The same text around two different middles gives two different texts.
pub proof fn lemma_middle_differs(a: Seq<char>, x: Seq<char>, y: Seq<char>, b: Seq<char>)
    requires
        x != y,
    ensures
        a + x + b != a + y + b,
{
    if a + x + b == a + y + b {
        if x.len() == y.len() {
            assert((a + x + b).subrange(a.len() as int, (a.len() + x.len()) as int) =~= x);
            assert((a + y + b).subrange(a.len() as int, (a.len() + y.len()) as int) =~= y);
        } else {
            assert((a + x + b).len() != (a + y + b).len());
        }
    }
}

/// The character sequences held by a list of strings.
pub open spec fn views(v: Seq<String>) -> Seq<Seq<char>> {
    v.map_values(|f: String| f@)
}

/// Joins `fields` with `delim` between each two neighbours.
pub fn join_fields(fields: &[String], delim: &str) -> (r: String)
    ensures
        r@ == join(views(fields@), delim@),
{
    let mut r = String::new();
    let mut i: usize = 0;
    while i < fields.len()
        invariant
            i <= fields@.len(),
            r@ == join(views(fields@.take(i as int)), delim@),
        decreases fields.len() - i,
    {
        let ghost before = views(fields@.take(i as int));
        let ghost after = views(fields@.take(i + 1));
        assert(after.drop_last() =~= before);
        assert(after.last() == fields@[i as int]@);
        if i > 0 {
            r.append(delim);
        } else {
            assert(after =~= seq![fields@[0]@]);
        }
        r.append(fields[i].as_str());
        i = i + 1;
    }
    assert(fields@.take(i as int) =~= fields@);
    r
}

/// Splits `s` at its only `:`; `None` where it holds none or several.
pub fn split_colon<'a>(s: &'a str) -> (r: Option<(&'a str, &'a str)>)
    ensures
        match r {
            Some((a, b)) => split_colon_spec(s@) == Some((a@, b@)),
            None => split_colon_spec(s@) is None,
        },
{
    let len = s.unicode_len();
    let mut k: usize = 0;
    while k < len && s.get_char(k) != ':'
        invariant
            k <= len,
            len == s@.len(),
            no_colon(s@.take(k as int)),
        decreases len - k,
    {
        assert(s@.take(k + 1) =~= s@.take(k as int).push(s@[k as int]));
        k = k + 1;
    }
    if k == len {
        assert(s@.take(k as int) =~= s@);
        return None;
    }
    let mut m: usize = k + 1;
    while m < len && s.get_char(m) != ':'
        invariant
            k < m <= len,
            len == s@.len(),
            no_colon(s@.subrange(k + 1, m as int)),
        decreases len - m,
    {
        assert(s@.subrange(k + 1, m + 1) =~= s@.subrange(k + 1, m as int).push(s@[m as int]));
        m = m + 1;
    }
    if m < len {
        proof {
            assert forall|i: int|
                0 <= i < s@.len() && s@[i] == ':' && no_colon(#[trigger] s@.take(i)) implies !no_colon(
                s@.skip(i + 1),
            ) by {
                if i > k {
                    assert(s@.take(i)[k as int] == ':');
                } else if i < k {
                    assert(s@.take(k as int)[i] == ':');
                }
                assert(s@.skip(i + 1)[m - k - 1] == ':');
            }
        }
        return None;
    }
    assert(s@.subrange(k + 1, m as int) =~= s@.skip(k + 1));
    let a = s.substring_char(0, k);
    let b = s.substring_char(k + 1, len);
    proof {
        assert(s@.take(k as int) =~= s@.subrange(0, k as int));
        let i = choose|i: int|
            0 <= i < s@.len() && s@[i] == ':' && no_colon(#[trigger] s@.take(i)) && no_colon(
                s@.skip(i + 1),
            );
        assert(0 <= k < s@.len() && s@[k as int] == ':' && no_colon(s@.take(k as int)) && no_colon(
            s@.skip(k + 1),
        ));
        if i < k {
            assert(s@.take(k as int)[i] == ':');
        } else if i > k {
            assert(s@.take(i)[k as int] == ':');
        }
    }
    Some((a, b))
}

/// Whether two strings hold the same characters.
pub fn text_eq(a: &str, b: &str) -> (r: bool)
    ensures
        r == (a@ == b@),
{
    let n = a.unicode_len();
    if n != b.unicode_len() {
        return false;
    }
    let mut i: usize = 0;
    while i < n
        invariant
            i <= n,
            n == a@.len(),
            n == b@.len(),
            forall|j: int| 0 <= j < i ==> a@[j] == b@[j],
        decreases n - i,
    {
        if a.get_char(i) != b.get_char(i) {
            return false;
        }
        i = i + 1;
    }
    assert(a@ =~= b@);
    true
}

/// What follows `prefix` in `s`, where `s` starts with it.
pub fn strip_prefix<'a>(s: &'a str, prefix: &str) -> (r: Option<&'a str>)
    ensures
        match r {
            Some(rest) => prefix@.is_prefix_of(s@) && rest@ == s@.skip(prefix@.len() as int),
            None => !prefix@.is_prefix_of(s@),
        },
{
    let n = s.unicode_len();
    let m = prefix.unicode_len();
    if m > n {
        return None;
    }
    let head = s.substring_char(0, m);
    if !text_eq(head, prefix) {
        assert(s@.take(m as int) =~= head@);
        return None;
    }
    assert(s@.take(m as int) =~= head@);
    Some(s.substring_char(m, n))
}

} // verus!

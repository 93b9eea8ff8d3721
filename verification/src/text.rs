use vstd::prelude::*;
use vstd::string::*;

verus! {

/// The character of a decimal digit.
pub open spec fn digit_char(d: nat) -> char {
    (d + 48) as char
}

/// Decimal notation of a natural number, most significant digit first.
pub open spec fn nat_decimal(n: nat) -> Seq<char>
    decreases n,
{
    if n < 10 {
        seq![digit_char(n)]
    } else {
        nat_decimal(n / 10).push(digit_char(n % 10))
    }
}

/// Decimal notation of an integer, with a leading `-` for negative values.
pub open spec fn int_decimal(i: int) -> Seq<char> {
    if i < 0 {
        seq!['-'] + nat_decimal((-i) as nat)
    } else {
        nat_decimal(i as nat)
    }
}

fn digit_str(d: u64) -> (r: &'static str)
    requires
        d < 10,
    ensures
        r@ == seq![digit_char(d as nat)],
{
    proof {
        reveal_strlit("0");
        reveal_strlit("1");
        reveal_strlit("2");
        reveal_strlit("3");
        reveal_strlit("4");
        reveal_strlit("5");
        reveal_strlit("6");
        reveal_strlit("7");
        reveal_strlit("8");
        reveal_strlit("9");
    }
    match d {
        0 => "0",
        1 => "1",
        2 => "2",
        3 => "3",
        4 => "4",
        5 => "5",
        6 => "6",
        7 => "7",
        8 => "8",
        _ => "9",
    }
}

/// Appends the decimal notation of `n` to `buf`.
pub fn append_u64(buf: &mut String, n: u64)
    ensures
        final(buf)@ == old(buf)@ + nat_decimal(n as nat),
    decreases n,
{
    if n >= 10 {
        append_u64(buf, n / 10);
    }
    buf.append(digit_str(n % 10));
    assert(n >= 10 ==> nat_decimal(n as nat) == nat_decimal((n / 10) as nat).push(digit_char((n % 10) as nat)));
}

} // verus!

verus! {

/// The pieces of `s` between occurrences of `sep`, as `str::split` yields them:
/// always at least one piece, empty pieces kept.
pub open spec fn split_spec(s: Seq<char>, sep: char) -> Seq<Seq<char>>
    decreases s.len(),
{
    if s.len() == 0 {
        seq![Seq::<char>::empty()]
    } else {
        let init = split_spec(s.drop_last(), sep);
        if s.last() == sep {
            init.push(Seq::<char>::empty())
        } else {
            init.update(init.len() - 1, init.last().push(s.last()))
        }
    }
}

pub proof fn lemma_split_nonempty(s: Seq<char>, sep: char)
    ensures
        split_spec(s, sep).len() >= 1,
    decreases s.len(),
{
    if s.len() > 0 {
        lemma_split_nonempty(s.drop_last(), sep);
    }
}

pub proof fn lemma_split_len(s: Seq<char>, sep: char)
    ensures
        1 <= split_spec(s, sep).len() <= s.len() + 1,
    decreases s.len(),
{
    if s.len() > 0 {
        lemma_split_len(s.drop_last(), sep);
    }
}

/// The pieces written one after the other, with `sep` between each two.
pub open spec fn join_with(pieces: Seq<Seq<char>>, sep: char) -> Seq<char> {
    Seq::new(pieces.len(), |j: int| if j == 0 { pieces[j] } else { seq![sep] + pieces[j] }).flatten()
}

pub proof fn lemma_join_last(pieces: Seq<Seq<char>>, sep: char)
    requires
        pieces.len() >= 1,
    ensures
        join_with(pieces, sep) == join_with(pieces.drop_last(), sep) + (if pieces.len() == 1 {
            pieces.last()
        } else {
            seq![sep] + pieces.last()
        }),
{
    let n = pieces.len() as int;
    let whole = Seq::new(pieces.len(), |j: int| if j == 0 { pieces[j] } else { seq![sep] + pieces[j] });
    let init = pieces.drop_last();
    let front = Seq::new(init.len(), |j: int| if j == 0 { init[j] } else { seq![sep] + init[j] });
    assert(whole =~= front.push(whole[n - 1]));
    front.lemma_flatten_push(whole[n - 1]);
}

/// Joining the pieces of a split with the separator gives back the text, and no piece
/// holds the separator.
pub proof fn split_then_join(s: Seq<char>, sep: char)
    ensures
        join_with(split_spec(s, sep), sep) == s,
        forall|i: int| 0 <= i < split_spec(s, sep).len() ==> !(#[trigger] split_spec(s, sep)[i]).contains(sep),
    decreases s.len(),
{
    let p = split_spec(s, sep);
    if s.len() == 0 {
        let whole = Seq::new(p.len(), |j: int| if j == 0 { p[j] } else { seq![sep] + p[j] });
        whole.lemma_flatten_singleton();
        assert(join_with(p, sep) =~= s);
    } else {
        let init = split_spec(s.drop_last(), sep);
        split_then_join(s.drop_last(), sep);
        lemma_split_nonempty(s.drop_last(), sep);
        lemma_join_last(p, sep);
        if s.last() == sep {
            assert(p.drop_last() =~= init);
            assert(join_with(p, sep) =~= s);
        } else {
            let m = init.len() - 1;
            assert(p.drop_last() =~= init.drop_last());
            lemma_join_last(init, sep);
            let last_in = if m == 0 { init[m] } else { seq![sep] + init[m] };
            let last_out = if m == 0 { p[m] } else { seq![sep] + p[m] };
            assert(last_out =~= last_in.push(s.last()));
            assert(join_with(p, sep) == join_with(init.drop_last(), sep) + last_out);
            assert(join_with(init, sep) == join_with(init.drop_last(), sep) + last_in);
            assert(join_with(p, sep) =~= join_with(init, sep).push(s.last()));
            assert(s =~= s.drop_last().push(s.last()));
            assert forall|i: int| 0 <= i < p.len() implies !(#[trigger] p[i]).contains(sep) by {
                if i == m {
                    if p[i].contains(sep) {
                        let t = choose|t: int| 0 <= t < p[i].len() && p[i][t] == sep;
                        if t < init[m].len() {
                            assert(init[m][t] == sep);
                        }
                    }
                } else {
                    assert(p[i] == init[i]);
                }
            }
        }
    }
}

/// Index of the last occurrence of `c` in `s`.
pub open spec fn last_index_of(s: Seq<char>, c: char) -> Option<int>
    decreases s.len(),
{
    if s.len() == 0 {
        None
    } else if s.last() == c {
        Some(s.len() - 1)
    } else {
        last_index_of(s.drop_last(), c)
    }
}

pub proof fn lemma_last_index_of(s: Seq<char>, c: char)
    ensures
        match last_index_of(s, c) {
            Some(i) => 0 <= i < s.len() && s[i] == c && forall|j: int| i < j < s.len() ==> s[j] != c,
            None => forall|j: int| 0 <= j < s.len() ==> s[j] != c,
        },
    decreases s.len(),
{
    if s.len() > 0 {
        lemma_last_index_of(s.drop_last(), c);
        assert(forall|j: int| 0 <= j < s.len() - 1 ==> s.drop_last()[j] == s[j]);
    }
}

/// Splits `s` at every `sep`, as `str::split` does.
pub fn split_str(s: &str, sep: char) -> (pieces: Vec<String>)
    ensures
        pieces@.map_values(|p: String| p@) == split_spec(s@, sep),
{
    let n = s.unicode_len();
    let mut pieces: Vec<String> = Vec::new();
    let mut start: usize = 0;
    let mut i: usize = 0;
    assert(s@.subrange(0, 0) =~= Seq::<char>::empty());
    assert(pieces@.map_values(|p: String| p@).push(s@.subrange(0, 0)) =~= seq![Seq::<char>::empty()]);
    while i < n
        invariant
            n == s@.len(),
            start <= i <= n,
            pieces@.map_values(|p: String| p@).push(s@.subrange(start as int, i as int))
                == split_spec(s@.subrange(0, i as int), sep),
        decreases n - i,
    {
        let c = s.get_char(i);
        let ghost prefix = s@.subrange(0, i as int + 1);
        assert(prefix.drop_last() =~= s@.subrange(0, i as int));
        assert(prefix.last() == c);
        if c == sep {
            let piece = s.substring_char(start, i).to_owned();
            pieces.push(piece);
            start = i + 1;
            assert(s@.subrange(start as int, i as int + 1) =~= Seq::<char>::empty());
        } else {
            assert(s@.subrange(start as int, i as int + 1) =~= s@.subrange(start as int, i as int).push(c));
        }
        i = i + 1;
    }
    let last = s.substring_char(start, n).to_owned();
    pieces.push(last);
    assert(s@.subrange(0, n as int) =~= s@);
    pieces
}

/// Finds the index of the last `c` in `s`, counted in characters.
pub fn rfind_char(s: &str, c: char) -> (r: Option<usize>)
    ensures
        match r {
            Some(i) => last_index_of(s@, c) == Some(i as int),
            None => last_index_of(s@, c) is None,
        },
{
    let n = s.unicode_len();
    let mut i: usize = n;
    assert(s@.subrange(0, n as int) =~= s@);
    while i > 0
        invariant
            i <= n == s@.len(),
            last_index_of(s@, c) == last_index_of(s@.subrange(0, i as int), c),
        decreases i,
    {
        let ghost pre = s@.subrange(0, i as int);
        assert(pre.drop_last() =~= s@.subrange(0, i as int - 1));
        if s.get_char(i - 1) == c {
            return Some(i - 1);
        }
        i = i - 1;
    }
    assert(s@.subrange(0, 0) =~= Seq::<char>::empty());
    None
}

} // verus!

verus! {

/// Appends the decimal notation of `n` to `buf`, with a `-` for negative values.
pub fn append_i64(buf: &mut String, n: i64)
    ensures
        final(buf)@ == old(buf)@ + int_decimal(n as int),
{
    if n < 0 {
        buf.append("-");
        proof {
            reveal_strlit("-");
        }
        let m: i128 = -(n as i128);
        append_u64(buf, m as u64);
    } else {
        append_u64(buf, n as u64);
    }
}

/// The decimal notation of `n`.
pub fn i64_to_string(n: i64) -> (s: String)
    ensures
        s@ == int_decimal(n as int),
{
    let mut s = String::new();
    append_i64(&mut s, n);
    s
}

/// The decimal notation of `n`.
pub fn u64_to_string(n: u64) -> (s: String)
    ensures
        s@ == nat_decimal(n as nat),
{
    let mut s = String::new();
    append_u64(&mut s, n);
    s
}

} // verus!

verus! {

/// Appends the bytes of `s` to `v`.
pub fn append_bytes(v: &mut Vec<u8>, s: &[u8])
    ensures
        final(v)@ == old(v)@ + s@,
{
    let mut i: usize = 0;
    while i < s.len()
        invariant
            i <= s@.len(),
            v@ == old(v)@ + s@.subrange(0, i as int),
        decreases s.len() - i,
    {
        v.push(s[i]);
        i = i + 1;
        assert(v@ =~= old(v)@ + s@.subrange(0, i as int));
    }
    assert(s@.subrange(0, s@.len() as int) =~= s@);
}

/// A copy of the bytes `s`.
pub fn bytes_to_vec(s: &[u8]) -> (v: Vec<u8>)
    ensures
        v@ == s@,
{
    let mut v = Vec::new();
    append_bytes(&mut v, s);
    assert(v@ =~= s@);
    v
}

} // verus!

verus! {

/// The number the decimal digits `s` spell.
pub open spec fn digits_value(s: Seq<char>) -> int
    decreases s.len(),
{
    if s.len() == 0 {
        0
    } else {
        digits_value(s.drop_last()) * 10 + (s.last() as int - 48)
    }
}

/// Every character of `s` is an ASCII digit.
pub open spec fn all_digits(s: Seq<char>) -> bool {
    forall|i: int| 0 <= i < s.len() ==> '0' <= #[trigger] s[i] && s[i] <= '9'
}

/// What `str::parse::<i32>` gives: an optional `+` or `-`, then one or more digits, whose
/// value fits in an `i32`; anything else is refused.
pub open spec fn parse_i32_spec(s: Seq<char>) -> Option<i32> {
    let signed = s.len() > 0 && (s[0] == '-' || s[0] == '+');
    let digits = if signed { s.drop_first() } else { s };
    let v = if s.len() > 0 && s[0] == '-' { -digits_value(digits) } else { digits_value(digits) };
    if digits.len() == 0 || !all_digits(digits) || v < i32::MIN || v > i32::MAX {
        None
    } else {
        Some(v as i32)
    }
}

/// Parses `s` as an `i32` with `str::parse`, which, as the standard library documents,
/// takes an optional sign followed by digits, and refuses everything else, whitespace and
/// out-of-range values included.
#[verifier::external_body]
pub(crate) fn parse_i32(s: &str) -> (r: Option<i32>)
    ensures
        r == parse_i32_spec(s@),
{
    s.parse::<i32>().ok()
}


/// What `str::parse::<i64>` gives: an optional `+` or `-`, then one or more digits, whose
/// value fits in an `i64`; anything else is refused.
pub open spec fn parse_i64_spec(s: Seq<char>) -> Option<i64> {
    let signed = s.len() > 0 && (s[0] == '-' || s[0] == '+');
    let digits = if signed { s.drop_first() } else { s };
    let v = if s.len() > 0 && s[0] == '-' { -digits_value(digits) } else { digits_value(digits) };
    if digits.len() == 0 || !all_digits(digits) || v < i64::MIN || v > i64::MAX {
        None
    } else {
        Some(v as i64)
    }
}

/// Parses `s` as an `i64` with `str::parse`, which, as the standard library documents,
/// takes an optional sign followed by digits, and refuses everything else, whitespace and
/// out-of-range values included.
#[verifier::external_body]
pub(crate) fn parse_i64(s: &str) -> (r: Option<i64>)
    ensures
        r == parse_i64_spec(s@),
{
    s.parse::<i64>().ok()
}

/// What `str::parse::<u16>` gives: an optional `+`, then one or more digits, whose value
/// fits in a `u16`; anything else, a `-` included, is refused.
pub open spec fn parse_u16_spec(s: Seq<char>) -> Option<u16> {
    let digits = if s.len() > 0 && s[0] == '+' { s.drop_first() } else { s };
    if digits.len() == 0 || !all_digits(digits) || digits_value(digits) > u16::MAX {
        None
    } else {
        Some(digits_value(digits) as u16)
    }
}

/// Parses `s` as a `u16` with `str::parse`, which, as the standard library documents,
/// takes an optional `+` followed by digits, and refuses everything else, whitespace and
/// out-of-range values included.
#[verifier::external_body]
pub(crate) fn parse_u16(s: &str) -> (r: Option<u16>)
    ensures
        r == parse_u16_spec(s@),
{
    s.parse::<u16>().ok()
}

} // verus!

verus! {

proof fn lemma_nat_decimal_digits(n: nat)
    ensures
        digits_value(nat_decimal(n)) == n,
        all_digits(nat_decimal(n)),
        nat_decimal(n).len() >= 1,
    decreases n,
{
    if n < 10 {
        let s = nat_decimal(n);
        assert(s == seq![digit_char(n)]);
        assert(s.drop_last() =~= Seq::<char>::empty());
        assert(digit_char(n) as int == n + 48);
        assert(digits_value(s.drop_last()) == 0);
        assert(digits_value(s) == digits_value(s.drop_last()) * 10 + (s.last() as int - 48));
    } else {
        lemma_nat_decimal_digits(n / 10);
        let s = nat_decimal(n);
        let t = nat_decimal(n / 10);
        assert(s == t.push(digit_char(n % 10)));
        assert(s.drop_last() =~= t);
        assert(digit_char(n % 10) as int == n % 10 + 48);
        assert(forall|i: int| 0 <= i < t.len() ==> s[i] == t[i]);
        assert(digits_value(s) == digits_value(t) * 10 + (n % 10));
        assert((n / 10) * 10 + n % 10 == n);
    }
}

/// A number written in decimal reads back as the same number: the account id that an
/// authorization address carries as its state is the id its callback is for.
pub proof fn decimal_parse_round_trip(v: i32)
    ensures
        parse_i32_spec(int_decimal(v as int)) == Some(v),
{
    if v >= 0 {
        lemma_nat_decimal_digits(v as nat);
        let s = nat_decimal(v as nat);
        assert('0' <= s[0] && s[0] <= '9');
    } else {
        lemma_nat_decimal_digits((-v) as nat);
        let d = nat_decimal((-v) as nat);
        let s = seq!['-'] + d;
        assert(s.drop_first() =~= d);
        assert(s[0] == '-');
    }
}

} // verus!

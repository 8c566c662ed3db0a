//! Verified text building: decimal and hexadecimal rendering of integers and
//! joining of string lists. These back the id, path and rule formatting that
//! the supervisor and the network model publish.

use vstd::prelude::*;

verus! {

/// The decimal digit character for `d`.
pub open spec fn spec_digit(d: int) -> char {
    if d == 0 { '0' }
    else if d == 1 { '1' }
    else if d == 2 { '2' }
    else if d == 3 { '3' }
    else if d == 4 { '4' }
    else if d == 5 { '5' }
    else if d == 6 { '6' }
    else if d == 7 { '7' }
    else if d == 8 { '8' }
    else { '9' }
}

/// The lowercase hexadecimal digit character for `d`.
pub open spec fn spec_hex_digit(d: int) -> char {
    if d < 10 { spec_digit(d) }
    else if d == 10 { 'a' }
    else if d == 11 { 'b' }
    else if d == 12 { 'c' }
    else if d == 13 { 'd' }
    else if d == 14 { 'e' }
    else { 'f' }
}

/// Decimal rendering of `n`, most significant digit first, no leading zeros.
pub open spec fn spec_u64_text(n: int) -> Seq<char>
    decreases n,
{
    if n < 10 {
        seq![spec_digit(n)]
    } else {
        spec_u64_text(n / 10).push(spec_digit(n % 10))
    }
}

/// Lowercase hexadecimal rendering of `n`, no leading zeros.
pub open spec fn spec_u16_hex(n: int) -> Seq<char>
    decreases n,
{
    if n < 16 {
        seq![spec_hex_digit(n)]
    } else {
        spec_u16_hex(n / 16).push(spec_hex_digit(n % 16))
    }
}

fn digit_str(d: u64) -> (r: &'static str)
    requires
        d < 10,
    ensures
        r@ =~= seq![spec_digit(d as int)],
{
    proof {
        reveal_strlit("0");
        reveal_strlit("1");
        reveal_strlit("2");
        reveal_strlit("3");
        reveal_strlit("4");
        reveal_strlit("5");
        reveal_strlit("6");
        reveal_strlit("7");
        reveal_strlit("8");
        reveal_strlit("9");
    }
    if d == 0 { "0" }
    else if d == 1 { "1" }
    else if d == 2 { "2" }
    else if d == 3 { "3" }
    else if d == 4 { "4" }
    else if d == 5 { "5" }
    else if d == 6 { "6" }
    else if d == 7 { "7" }
    else if d == 8 { "8" }
    else { "9" }
}

fn hex_digit_str(d: u64) -> (r: &'static str)
    requires
        d < 16,
    ensures
        r@ =~= seq![spec_hex_digit(d as int)],
{
    proof {
        reveal_strlit("a");
        reveal_strlit("b");
        reveal_strlit("c");
        reveal_strlit("d");
        reveal_strlit("e");
        reveal_strlit("f");
    }
    if d < 10 { digit_str(d) }
    else if d == 10 { "a" }
    else if d == 11 { "b" }
    else if d == 12 { "c" }
    else if d == 13 { "d" }
    else if d == 14 { "e" }
    else { "f" }
}

/// Decimal text of an unsigned integer.
pub fn u64_text(n: u64) -> (r: String)
    ensures
        r@ == spec_u64_text(n as int),
    decreases n,
{
    if n < 10 {
        let r = String::from_str(digit_str(n));
        proof {
            assert(r@ =~= spec_u64_text(n as int));
        }
        r
    } else {
        let q = u64_text(n / 10);
        let r = q.concat(digit_str(n % 10));
        proof {
            assert(r@ =~= spec_u64_text(n as int));
        }
        r
    }
}

/// Lowercase hexadecimal text of a 16-bit group.
pub fn u16_hex_text(n: u16) -> (r: String)
    ensures
        r@ == spec_u16_hex(n as int),
    decreases n,
{
    if n < 16 {
        let r = String::from_str(hex_digit_str(n as u64));
        proof {
            assert(r@ =~= spec_u16_hex(n as int));
        }
        r
    } else {
        let q = u16_hex_text(n / 16);
        let r = q.concat(hex_digit_str((n % 16) as u64));
        proof {
            assert(r@ =~= spec_u16_hex(n as int));
        }
        r
    }
}

/// The elements of `xs` joined by `sep`.
pub open spec fn spec_joined(xs: Seq<Seq<char>>, sep: Seq<char>) -> Seq<char>
    decreases xs.len(),
{
    if xs.len() == 0 {
        Seq::empty()
    } else if xs.len() == 1 {
        xs[0]
    } else {
        xs[0] + sep + spec_joined(xs.drop_first(), sep)
    }
}

/// Appending one more element extends the joined text by a separator and the
/// element (or is the element itself when the list was empty).
pub proof fn lemma_joined_push(xs: Seq<Seq<char>>, sep: Seq<char>, x: Seq<char>)
    ensures
        xs.len() == 0 ==> spec_joined(xs.push(x), sep) == x,
        xs.len() > 0 ==> spec_joined(xs.push(x), sep) == spec_joined(xs, sep) + sep + x,
    decreases xs.len(),
{
    if xs.len() == 0 {
        assert(spec_joined(xs.push(x), sep) =~= x);
    } else {
        lemma_joined_push(xs.drop_first(), sep, x);
        assert(xs.push(x).drop_first() =~= xs.drop_first().push(x));
        if xs.len() == 1 {
            assert(spec_joined(xs.push(x), sep) =~= spec_joined(xs, sep) + sep + x);
        } else {
            assert(spec_joined(xs.push(x), sep) =~= spec_joined(xs, sep) + sep + x);
        }
    }
}

/// The views of a list of strings.
pub open spec fn spec_views(xs: Seq<String>) -> Seq<Seq<char>> {
    xs.map_values(|s: String| s@)
}

/// `start`, then the elements joined by `sep`, then `end`.
pub fn mk_string(items: &Vec<String>, start: &str, sep: &str, end: &str) -> (r: String)
    ensures
        r@ == start@ + spec_joined(spec_views(items@), sep@) + end@,
{
    let mut acc = String::from_str(start);
    let n = items.len();
    let mut i: usize = 0;
    while i < n
        invariant
            n == items@.len(),
            i <= n,
            acc@ == start@ + spec_joined(spec_views(items@.take(i as int)), sep@),
        decreases n - i,
    {
        if i > 0 {
            acc.append(sep);
        }
        acc.append(items[i].as_str());
        proof {
            let pre = spec_views(items@.take(i as int));
            lemma_joined_push(pre, sep@, items@[i as int]@);
            assert(spec_views(items@.take(i as int + 1)) =~= pre.push(items@[i as int]@));
            if i == 0 {
                assert(acc@ =~= start@ + spec_joined(spec_views(items@.take(i as int + 1)), sep@));
            } else {
                assert(acc@ =~= start@ + spec_joined(spec_views(items@.take(i as int + 1)), sep@));
            }
        }
        i += 1;
    }
    proof {
        assert(items@.take(n as int) =~= items@);
    }
    acc.append(end);
    acc
}

} // verus!

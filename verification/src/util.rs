//! Small executable helpers over strings shared by the wire modules.

use vstd::prelude::*;

verus! {

/// Compares two string slices by their character sequences.
pub fn str_eq(a: &str, b: &str) -> (r: bool)
    ensures
        r == (a@ == b@),
{
    let x: String = a.to_owned();
    let y: String = b.to_owned();
    x == y
}

pub open spec fn is_digit(c: char) -> bool {
    '0' <= c && c <= '9'
}

pub open spec fn digit_val(c: char) -> int {
    c as int - '0' as int
}

pub open spec fn dec_digit(d: int) -> char {
    if d == 0 {
        '0'
    } else if d == 1 {
        '1'
    } else if d == 2 {
        '2'
    } else if d == 3 {
        '3'
    } else if d == 4 {
        '4'
    } else if d == 5 {
        '5'
    } else if d == 6 {
        '6'
    } else if d == 7 {
        '7'
    } else if d == 8 {
        '8'
    } else {
        '9'
    }
}

/// The decimal digit string of a non-negative integer, no leading zeros.
pub open spec fn dec_chars(n: int) -> Seq<char>
    recommends
        n >= 0,
    decreases n,
{
    if n < 10 {
        seq![dec_digit(n)]
    } else {
        dec_chars(n / 10).push(dec_digit(n % 10))
    }
}

/// A non-empty string of decimal digits.
pub open spec fn is_dec_string(s: Seq<char>) -> bool {
    &&& s.len() > 0
    &&& forall|i: int| 0 <= i < s.len() ==> is_digit(#[trigger] s[i])
}

/// The numeric value of a digit string.
pub open spec fn dec_val(s: Seq<char>) -> int
    decreases s.len(),
{
    if s.len() == 0 {
        0
    } else {
        dec_val(s.drop_last()) * 10 + digit_val(s.last())
    }
}

pub proof fn lemma_dec_val_nonneg(s: Seq<char>)
    requires
        forall|i: int| 0 <= i < s.len() ==> is_digit(#[trigger] s[i]),
    ensures
        dec_val(s) >= 0,
    decreases s.len(),
{
    if s.len() > 0 {
        lemma_dec_val_nonneg(s.drop_last());
    }
}

/// Extending a digit string with further digits never shrinks its value.
pub proof fn lemma_dec_val_prefix(s: Seq<char>, i: int)
    requires
        0 <= i <= s.len(),
        forall|k: int| 0 <= k < s.len() ==> is_digit(#[trigger] s[k]),
    ensures
        dec_val(s.take(i)) <= dec_val(s),
    decreases s.len() - i,
{
    if i < s.len() {
        lemma_dec_val_prefix(s, i + 1);
        assert(s.take(i + 1).drop_last() =~= s.take(i));
        assert(s.take(i + 1).last() == s[i]);
        assert forall|k: int| 0 <= k < s.take(i).len() implies is_digit(
            #[trigger] s.take(i)[k],
        ) by {}
        lemma_dec_val_nonneg(s.take(i));
    } else {
        assert(s.take(i) =~= s);
    }
}

/// `dec_chars` produces a digit string that reads back to the same value.
pub proof fn lemma_dec_chars_val(n: int)
    requires
        n >= 0,
    ensures
        is_dec_string(dec_chars(n)),
        dec_val(dec_chars(n)) == n,
    decreases n,
{
    if n < 10 {
        assert(dec_chars(n) =~= seq![dec_digit(n)]);
        assert(seq![dec_digit(n)].drop_last() =~= Seq::<char>::empty());
        assert(seq![dec_digit(n)].last() == dec_digit(n));
        assert(digit_val(dec_digit(n)) == n);
        assert(dec_val(seq![dec_digit(n)]) == dec_val(Seq::<char>::empty()) * 10 + digit_val(
            dec_digit(n),
        ));
    } else {
        lemma_dec_chars_val(n / 10);
        let p = dec_chars(n / 10);
        assert(p.push(dec_digit(n % 10)).drop_last() =~= p);
        assert(p.push(dec_digit(n % 10)).last() == dec_digit(n % 10));
        assert(digit_val(dec_digit(n % 10)) == n % 10);
        assert(dec_val(dec_chars(n)) == (n / 10) * 10 + n % 10);
    }
}

fn digit_str(d: u32) -> (r: &'static str)
    requires
        d < 10,
    ensures
        r@ == seq![dec_digit(d as int)],
{
    proof {
        reveal_strlit("0");
        reveal_strlit("1");
        reveal_strlit("2");
        reveal_strlit("3");
        reveal_strlit("4");
        reveal_strlit("5");
        reveal_strlit("6");
        reveal_strlit("7");
        reveal_strlit("8");
        reveal_strlit("9");
    }
    let r: &'static str = match d {
        0 => "0",
        1 => "1",
        2 => "2",
        3 => "3",
        4 => "4",
        5 => "5",
        6 => "6",
        7 => "7",
        8 => "8",
        _ => "9",
    };
    proof {
        assert(r@ =~= seq![dec_digit(d as int)]);
    }
    r
}

fn push_dec(out: &mut String, v: u32)
    ensures
        final(out)@ == old(out)@ + dec_chars(v as int),
    decreases v,
{
    if v >= 10 {
        push_dec(out, v / 10);
    }
    out.append(digit_str(v % 10));
    proof {
        if v >= 10 {
            assert(dec_chars(v as int) == dec_chars(v as int / 10).push(
                dec_digit(v as int % 10),
            ));
            assert(dec_chars(v as int / 10).push(dec_digit(v as int % 10)) =~= dec_chars(
                v as int / 10,
            ) + seq![dec_digit(v as int % 10)]);
            assert(old(out)@ + dec_chars(v as int / 10) + seq![dec_digit(v as int % 10)] =~= old(
                out,
            )@ + dec_chars(v as int));
        } else {
            assert(old(out)@ + seq![dec_digit(v as int)] =~= old(out)@ + dec_chars(v as int));
        }
    }
}

/// Formats a number as its decimal digit string.
pub fn u32_to_string(v: u32) -> (out: String)
    ensures
        out@ == dec_chars(v as int),
{
    let mut out = String::new();
    push_dec(&mut out, v);
    proof {
        assert(Seq::<char>::empty() + dec_chars(v as int) =~= dec_chars(v as int));
    }
    out
}

/// Reads a decimal digit string as a number; `None` when the string is not a
/// non-empty run of digits or its value does not fit.
pub fn parse_u32(s: &str) -> (r: Option<u32>)
    ensures
        match r {
            Some(v) => is_dec_string(s@) && v as int == dec_val(s@),
            None => !(is_dec_string(s@) && dec_val(s@) <= u32::MAX),
        },
{
    let n = s.unicode_len();
    if n == 0 {
        return None;
    }
    let mut acc: u32 = 0;
    let mut i: usize = 0;
    proof {
        assert(s@.take(0) =~= Seq::<char>::empty());
    }
    while i < n
        invariant
            0 <= i <= n,
            n == s@.len(),
            forall|k: int| 0 <= k < i ==> is_digit(#[trigger] s@[k]),
            acc as int == dec_val(s@.take(i as int)),
        decreases n - i,
    {
        let c = s.get_char(i);
        if !(c >= '0' && c <= '9') {
            return None;
        }
        let d: u32 = (c as u32) - ('0' as u32);
        proof {
            assert(d as int == digit_val(s@[i as int]));
            assert(s@.take(i as int + 1).drop_last() =~= s@.take(i as int));
            assert(s@.take(i as int + 1).last() == s@[i as int]);
        }
        if acc > (u32::MAX - d) / 10 {
            proof {
                assert(dec_val(s@.take(i as int + 1)) == acc as int * 10 + d as int);
                assert(acc as int * 10 + d as int > u32::MAX as int);
                if is_dec_string(s@) {
                    lemma_dec_val_prefix(s@, i as int + 1);
                }
            }
            return None;
        }
        acc = acc * 10 + d;
        i += 1;
    }
    proof {
        assert(s@.take(n as int) =~= s@);
    }
    Some(acc)
}

/// Pushing onto a vector pushes the element's deep view onto its deep view.
pub proof fn lemma_deep_view_push<T: DeepView>(v: Vec<T>, prev: Vec<T>, x: T)
    requires
        v@ == prev@.push(x),
    ensures
        v.deep_view() == prev.deep_view().push(x.deep_view()),
{
    assert forall|k: int| 0 <= k < v.deep_view().len() implies v.deep_view()[k]
        == prev.deep_view().push(x.deep_view())[k] by {
        if k < prev@.len() {
            assert(v@[k] == prev@[k]);
        } else {
            assert(v@[k] == x);
        }
    }
    assert(v.deep_view() =~= prev.deep_view().push(x.deep_view()));
}

} // verus!

use vstd::prelude::*;

verus! {

/// The case folding of a string's characters: the canonical form under which
/// name-addressed entities are cached, so that a lookup by any casing of a
/// name meets the entry made for another casing.
pub uninterp spec fn fold_of(s: Seq<char>) -> Seq<char>;

/// Relies on unicase::UniCase::to_folded_case: returns a copy of the string
/// with each character mapped to its Unicode case-folding equivalent, a pure
/// function of the characters alone.
#[verifier::external_body]
pub fn fold_key(s: &str) -> (r: String)
    ensures
        r@ == fold_of(s@),
{
    unicase::UniCase::new(s).to_folded_case()
}

/// The character for one decimal digit.
pub open spec fn dec_digit(d: int) -> char {
    if d == 0 {
        '0'
    } else if d == 1 {
        '1'
    } else if d == 2 {
        '2'
    } else if d == 3 {
        '3'
    } else if d == 4 {
        '4'
    } else if d == 5 {
        '5'
    } else if d == 6 {
        '6'
    } else if d == 7 {
        '7'
    } else if d == 8 {
        '8'
    } else {
        '9'
    }
}

/// The numeric value of one decimal digit character, or a marker outside
/// 0..10 for any other character.
pub open spec fn digit_val(c: char) -> int {
    (c as int) - 48
}

/// The canonical decimal rendering of a nonnegative number: no sign, no
/// leading zero except for zero itself.
pub open spec fn dec_rep(n: nat) -> Seq<char>
    decreases n,
{
    if n < 10 {
        seq![dec_digit(n as int)]
    } else {
        dec_rep(n / 10) + seq![dec_digit(n as int % 10)]
    }
}

/// The canonical decimal rendering of an integer: a `-` sign ahead of the
/// magnitude when negative.
pub open spec fn int_rep(n: int) -> Seq<char> {
    if n < 0 {
        seq!['-'] + dec_rep((-n) as nat)
    } else {
        dec_rep(n as nat)
    }
}

/// Every character is a decimal digit, and there is at least one.
pub open spec fn all_digits(s: Seq<char>) -> bool {
    s.len() > 0 && forall|i: int| 0 <= i < s.len() ==> 0 <= digit_val(#[trigger] s[i]) < 10
}

/// The number a digit string denotes, highest digit first.
pub open spec fn dec_val(s: Seq<char>) -> int
    decreases s.len(),
{
    if s.len() == 0 {
        0
    } else {
        dec_val(s.drop_last()) * 10 + digit_val(s.last())
    }
}

/// The integer a string denotes: an optional `-` sign, then digits; anything
/// else denotes nothing.
pub open spec fn int_val(s: Seq<char>) -> Option<int> {
    if s.len() > 0 && s[0] == '-' {
        if all_digits(s.subrange(1, s.len() as int)) {
            Some(-dec_val(s.subrange(1, s.len() as int)))
        } else {
            None
        }
    } else if all_digits(s) {
        Some(dec_val(s))
    } else {
        None
    }
}

fn digit_str(d: u32) -> (r: &'static str)
    requires
        d < 10,
    ensures
        r@ == seq![dec_digit(d as int)],
{
    proof {
        reveal_strlit("0");
        reveal_strlit("1");
        reveal_strlit("2");
        reveal_strlit("3");
        reveal_strlit("4");
        reveal_strlit("5");
        reveal_strlit("6");
        reveal_strlit("7");
        reveal_strlit("8");
        reveal_strlit("9");
    }
    match d {
        0 => "0",
        1 => "1",
        2 => "2",
        3 => "3",
        4 => "4",
        5 => "5",
        6 => "6",
        7 => "7",
        8 => "8",
        _ => "9",
    }
}

/// The canonical decimal rendering of `n`.
pub fn u32_to_dec(n: u32) -> (r: String)
    ensures
        r@ == dec_rep(n as nat),
    decreases n,
{
    if n < 10 {
        String::from_str(digit_str(n))
    } else {
        let mut s = u32_to_dec(n / 10);
        s.append(digit_str(n % 10));
        s
    }
}

/// The canonical decimal rendering of `n`, sign first: numeric identifiers
/// are cached and addressed under this one spelling.
pub fn i32_to_dec(n: i32) -> (r: String)
    ensures
        r@ == int_rep(n as int),
{
    if n < 0 {
        let mag: u32 = ((-(n as i64)) as u32);
        let mut s = String::from_str("-");
        proof {
            reveal_strlit("-");
        }
        let digits = u32_to_dec(mag);
        s.append(digits.as_str());
        s
    } else {
        u32_to_dec(n as u32)
    }
}

/// Digit strings denote nonnegative numbers, and a longer digit string never
/// denotes less than its prefix.
proof fn lemma_dec_val_bounds(s: Seq<char>, i: int)
    requires
        forall|j: int| 0 <= j < s.len() ==> 0 <= digit_val(#[trigger] s[j]) < 10,
        0 <= i <= s.len(),
    ensures
        dec_val(s) >= 0,
        dec_val(s.subrange(0, i)) <= dec_val(s),
    decreases s.len(),
{
    if s.len() == 0 {
        assert(s.subrange(0, i) =~= s);
    } else {
        assert(s.drop_last() =~= s.subrange(0, s.len() - 1));
        lemma_dec_val_bounds(s.drop_last(), if i > s.len() - 1 {
            s.len() - 1
        } else {
            i
        });
        if i <= s.len() - 1 {
            assert(s.subrange(0, i) =~= s.drop_last().subrange(0, i));
        } else {
            assert(s.subrange(0, i) =~= s);
        }
    }
}

/// Reading the decimal digits of `s` from `start` on.  Yields the denoted
/// value exactly when every remaining character is a digit, there is at least
/// one, and the value fits in `u32`.
fn parse_dec_from(s: &str, start: usize) -> (r: Option<u32>)
    requires
        start <= s@.len(),
    ensures
        ({
            let t = s@.subrange(start as int, s@.len() as int);
            match r {
                Some(v) => all_digits(t) && dec_val(t) == v as int,
                None => !all_digits(t) || dec_val(t) > u32::MAX,
            }
        }),
{
    let ghost t = s@.subrange(start as int, s@.len() as int);
    let n = s.unicode_len();
    if start == n {
        return None;
    }
    let mut acc: u64 = 0;
    let mut i: usize = start;
    while i < n
        invariant
            start <= i <= n,
            n == s@.len(),
            t == s@.subrange(start as int, s@.len() as int),
            start < n,
            forall|j: int| 0 <= j < i - start ==> 0 <= digit_val(#[trigger] t[j]) < 10,
            acc as int == dec_val(t.subrange(0, i - start)),
            acc <= u32::MAX,
        decreases n - i,
    {
        let c = s.get_char(i);
        let v = c as u32;
        if v < 48 || v > 57 {
            proof {
                assert(t[i - start] == s@[i as int]);
                assert(!all_digits(t));
            }
            return None;
        }
        proof {
            assert(t.subrange(0, i - start + 1).drop_last() =~= t.subrange(0, i - start));
            assert(t.subrange(0, i - start + 1).last() == s@[i as int]);
        }
        acc = acc * 10 + ((v - 48) as u64);
        if acc > 0xffff_ffff {
            proof {
                if all_digits(t) {
                    lemma_dec_val_bounds(t, i - start + 1);
                }
            }
            return None;
        }
        i += 1;
    }
    proof {
        assert(t.subrange(0, n - start) =~= t);
        assert(all_digits(t));
    }
    Some(acc as u32)
}

/// The integer `s` denotes, when it is an optionally signed decimal number
/// that fits in `i32`; anything malformed or out of range parses to nothing.
pub fn parse_i32(s: &str) -> (r: Option<i32>)
    ensures
        ({
            match int_val(s@) {
                Some(v) => if i32::MIN <= v <= i32::MAX {
                    r == Some(v as i32)
                } else {
                    r is None
                },
                None => r is None,
            }
        }),
{
    let n = s.unicode_len();
    if n == 0 {
        return None;
    }
    if s.get_char(0) == '-' {
        match parse_dec_from(s, 1) {
            Some(mag) => {
                if mag <= 0x8000_0000 {
                    Some((-(mag as i64)) as i32)
                } else {
                    None
                }
            },
            None => None,
        }
    } else {
        proof {
            if all_digits(s@) {
                lemma_dec_val_bounds(s@, 0);
            }
            assert(s@.subrange(0, s@.len() as int) =~= s@);
        }
        match parse_dec_from(s, 0) {
            Some(v) => {
                if v <= 0x7fff_ffff {
                    Some(v as i32)
                } else {
                    None
                }
            },
            None => None,
        }
    }
}

/// An element-exact copy of a key list.
pub fn clone_keys(v: &Vec<String>) -> (r: Vec<String>)
    ensures
        r@ == v@,
{
    let mut r: Vec<String> = Vec::new();
    let mut i: usize = 0;
    while i < v.len()
        invariant
            i <= v@.len(),
            r@ =~= v@.subrange(0, i as int),
        decreases v@.len() - i,
    {
        r.push(v[i].clone());
        i += 1;
    }
    proof {
        assert(r@ =~= v@);
    }
    r
}

proof fn lemma_digit_val(d: int)
    requires
        0 <= d < 10,
    ensures
        digit_val(dec_digit(d)) == d,
{
    assert('0' as int == 48 && '1' as int == 49 && '2' as int == 50 && '3' as int == 51 && '4'
        as int == 52 && '5' as int == 53 && '6' as int == 54 && '7' as int == 55 && '8' as int == 56
        && '9' as int == 57);
}

/// Rendering a number and reading it back is the identity: a cursor minted
/// from a position can always be resumed from.
pub proof fn lemma_dec_round_trip(n: nat)
    ensures
        all_digits(dec_rep(n)),
        dec_val(dec_rep(n)) == n,
    decreases n,
{
    if n < 10 {
        lemma_digit_val(n as int);
        assert(dec_rep(n) =~= seq![dec_digit(n as int)]);
        assert(dec_rep(n).drop_last() =~= Seq::<char>::empty());
        assert(dec_rep(n).last() == dec_digit(n as int));
        assert(dec_val(dec_rep(n)) == dec_val(dec_rep(n).drop_last()) * 10 + digit_val(
            dec_rep(n).last(),
        ));
        assert(dec_val(Seq::<char>::empty()) == 0);
        assert(dec_val(dec_rep(n)) == n);
    } else {
        lemma_dec_round_trip(n / 10);
        lemma_digit_val(n as int % 10);
        vstd::arithmetic::div_mod::lemma_fundamental_div_mod(n as int, 10);
        assert(dec_rep(n) =~= dec_rep(n / 10) + seq![dec_digit(n as int % 10)]);
        assert(dec_rep(n).drop_last() =~= dec_rep(n / 10));
        assert(dec_rep(n).last() == dec_digit(n as int % 10));
    }
}

} // verus!

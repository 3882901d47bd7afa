//! Characters, decimal digit strings, and small string utilities shared by
//! the channel-list codec, the identifier scanner and the timestamp code.

use vstd::prelude::*;

verus! {

/// An ASCII decimal digit.
pub open spec fn is_digit(c: char) -> bool {
    48 <= c as u32 && c as u32 <= 57
}

/// Numeric value of a digit character.
pub open spec fn digit_val(c: char) -> int {
    c as u32 - 48
}

/// The digit character for a value below ten.
pub open spec fn digit_char(d: int) -> char {
    if d == 0 {
        '0'
    } else if d == 1 {
        '1'
    } else if d == 2 {
        '2'
    } else if d == 3 {
        '3'
    } else if d == 4 {
        '4'
    } else if d == 5 {
        '5'
    } else if d == 6 {
        '6'
    } else if d == 7 {
        '7'
    } else if d == 8 {
        '8'
    } else {
        '9'
    }
}

/// Decimal representation of a number, most significant digit first,
/// with no leading zero (a single `'0'` for zero itself).
pub open spec fn dec_rep(n: nat) -> Seq<char>
    decreases n,
{
    if n < 10 {
        seq![digit_char(n as int)]
    } else {
        dec_rep(n / 10) + seq![digit_char((n % 10) as int)]
    }
}

/// Value of a string of decimal digits, most significant first.
pub open spec fn dec_val(s: Seq<char>) -> int
    decreases s.len(),
{
    if s.len() == 0 {
        0
    } else {
        dec_val(s.take(s.len() - 1)) * 10 + digit_val(s.last())
    }
}

/// Every character of the string is a decimal digit.
pub open spec fn all_digits(s: Seq<char>) -> bool {
    forall|k: int| 0 <= k < s.len() ==> is_digit(s[k])
}

pub proof fn lemma_dec_rep_digits(n: nat)
    ensures
        dec_rep(n).len() >= 1,
        all_digits(dec_rep(n)),
        n >= 1 ==> dec_rep(n)[0] != '0',
        dec_rep(n).len() > 1 ==> dec_rep(n)[0] != '0',
        dec_val(dec_rep(n)) == n,
    decreases n,
{
    if n < 10 {
        let c = digit_char(n as int);
        let s = seq![c];
        assert(dec_rep(n) == s);
        assert(Seq::<char>::empty().push(c) =~= s);
        lemma_dec_val_snoc(Seq::<char>::empty(), c);
        assert(dec_val(Seq::<char>::empty()) == 0);
        assert(is_digit(c));
        assert(digit_val(c) == n);
    } else {
        lemma_dec_rep_digits(n / 10);
        let head = dec_rep(n / 10);
        let c = digit_char((n % 10) as int);
        let full = dec_rep(n);
        assert(full == head + seq![c]);
        assert(is_digit(c));
        assert(digit_val(c) == n % 10);
        assert(full[0] == head[0]);
        assert(n / 10 >= 1);
        assert(all_digits(full)) by {
            assert(forall|k: int| 0 <= k < head.len() ==> full[k] == head[k]);
            assert(full[head.len() as int] == c);
        }
        assert(head.push(c) =~= full);
        lemma_dec_val_snoc(head, c);
        assert(dec_val(full) == dec_val(head) * 10 + digit_val(c));
        assert(dec_val(full) == (n / 10) * 10 + (n % 10));
    }
}

/// Appending one digit multiplies the value by ten and adds that digit.
pub proof fn lemma_dec_val_snoc(s: Seq<char>, c: char)
    ensures
        dec_val(s.push(c)) == dec_val(s) * 10 + digit_val(c),
{
    let t = s.push(c);
    assert(t.take(t.len() - 1) =~= s);
    assert(t.last() == c);
}

/// A string of digits has a non-negative value.
pub proof fn lemma_dec_val_nonneg(s: Seq<char>)
    requires
        all_digits(s),
    ensures
        dec_val(s) >= 0,
    decreases s.len(),
{
    if s.len() > 0 {
        let p = s.take(s.len() - 1);
        assert(all_digits(p));
        lemma_dec_val_nonneg(p);
        assert(is_digit(s.last()));
    }
}

/// A digit string is worth at least any of its prefixes.
pub proof fn lemma_dec_val_prefix_le(s: Seq<char>, i: int)
    requires
        0 <= i <= s.len(),
        all_digits(s),
    ensures
        dec_val(s.take(i)) <= dec_val(s),
        dec_val(s) >= 0,
    decreases s.len(),
{
    lemma_dec_val_nonneg(s);
    if i == s.len() {
        assert(s.take(i) =~= s);
    } else {
        let p = s.take(s.len() - 1);
        assert(all_digits(p));
        lemma_dec_val_nonneg(p);
        assert(is_digit(s.last()));
        assert(dec_val(s) == dec_val(p) * 10 + digit_val(s.last()));
        assert(p.take(i) =~= s.take(i));
        lemma_dec_val_prefix_le(p, i);
    }
}

/// The digit character of a small value, as a one-character string slice.
pub fn digit_to_str(d: u64) -> (r: &'static str)
    requires
        d < 10,
    ensures
        r@ =~= seq![digit_char(d as int)],
{
    proof {
        reveal_strlit("0");
        reveal_strlit("1");
        reveal_strlit("2");
        reveal_strlit("3");
        reveal_strlit("4");
        reveal_strlit("5");
        reveal_strlit("6");
        reveal_strlit("7");
        reveal_strlit("8");
        reveal_strlit("9");
    }
    if d == 0 {
        "0"
    } else if d == 1 {
        "1"
    } else if d == 2 {
        "2"
    } else if d == 3 {
        "3"
    } else if d == 4 {
        "4"
    } else if d == 5 {
        "5"
    } else if d == 6 {
        "6"
    } else if d == 7 {
        "7"
    } else if d == 8 {
        "8"
    } else {
        "9"
    }
}

/// Renders a number in decimal, most significant digit first.
pub fn u64_to_string(n: u64) -> (r: String)
    ensures
        r@ == dec_rep(n as nat),
    decreases n,
{
    if n < 10 {
        String::from_str(digit_to_str(n))
    } else {
        let mut s = u64_to_string(n / 10);
        s.append(digit_to_str(n % 10));
        proof {
            assert(s@ =~= dec_rep(n as nat));
        }
        s
    }
}

/// Character-for-character string equality.
pub fn str_eq(a: &str, b: &str) -> (r: bool)
    ensures
        r == (a@ == b@),
{
    let la = a.unicode_len();
    let lb = b.unicode_len();
    if la != lb {
        proof {
            assert(a@ != b@) by {
                if a@ == b@ {
                    assert(a@.len() == b@.len());
                }
            }
        }
        return false;
    }
    let mut i: usize = 0;
    while i < la
        invariant
            la == a@.len(),
            la == b@.len(),
            0 <= i <= la,
            forall|k: int| 0 <= k < i ==> a@[k] == b@[k],
        decreases la - i,
    {
        if a.get_char(i) != b.get_char(i) {
            proof {
                assert(a@ != b@) by {
                    if a@ == b@ {
                        assert(a@[i as int] == b@[i as int]);
                    }
                }
            }
            return false;
        }
        i = i + 1;
    }
    proof {
        assert(a@ =~= b@);
    }
    true
}

/// The characters of a string, in order, as a vector.
pub fn str_to_chars(s: &str) -> (v: Vec<char>)
    ensures
        v@ == s@,
{
    let n = s.unicode_len();
    let mut v: Vec<char> = Vec::new();
    let mut i: usize = 0;
    while i < n
        invariant
            n == s@.len(),
            0 <= i <= n,
            v@ =~= s@.take(i as int),
        decreases n - i,
    {
        v.push(s.get_char(i));
        i = i + 1;
    }
    proof {
        assert(v@ =~= s@);
    }
    v
}

} // verus!

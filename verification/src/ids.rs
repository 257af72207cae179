//! Subscription ids.
//!
//! On the wire a subscription is named by the text `sub_` followed by a
//! decimal counter value.  Inside the crate a subscription is the counter
//! value itself; the two forms convert both ways, and converting there
//! and back is proved to be the identity.

use vstd::prelude::*;
use vstd::string::*;

verus! {

/// The character for one decimal digit.
pub open spec fn digit_char(d: nat) -> char
    recommends
        d < 10,
{
    ((48 + d) as u8) as char
}

/// The value of one decimal digit character.
pub open spec fn digit_val(c: char) -> nat
    recommends
        is_digit(c),
{
    (c as u32 - 48) as nat
}

pub open spec fn is_digit(c: char) -> bool {
    '0' <= c && c <= '9'
}

pub open spec fn all_digits(s: Seq<char>) -> bool {
    forall|i: int| 0 <= i < s.len() ==> is_digit(s[i])
}

/// The decimal text of a number, most significant digit first.
pub open spec fn dec_digits(n: nat) -> Seq<char>
    decreases n,
{
    if n < 10 {
        seq![digit_char(n)]
    } else {
        dec_digits(n / 10).push(digit_char(n % 10))
    }
}

/// The number read from a decimal text.
pub open spec fn dec_value(s: Seq<char>) -> nat
    decreases s.len(),
{
    if s.len() == 0 {
        0
    } else {
        dec_value(s.drop_last()) * 10 + digit_val(s.last())
    }
}

/// A decimal text that `dec_digits` could have produced: nonempty, all
/// digits, and no leading zero.
pub open spec fn is_canonical_dec(s: Seq<char>) -> bool {
    &&& s.len() > 0
    &&& all_digits(s)
    &&& s.len() > 1 ==> s[0] != '0'
}

/// The decimal text of a number is canonical and reads back as that
/// number.
pub proof fn lemma_dec_digits_canonical(n: nat)
    ensures
        is_canonical_dec(dec_digits(n)),
        dec_value(dec_digits(n)) == n,
        n >= 1 ==> dec_digits(n)[0] != '0',
    decreases n,
{
    if n < 10 {
        let s = seq![digit_char(n)];
        assert(dec_digits(n) == s);
        assert(s.drop_last() =~= Seq::<char>::empty());
        assert(s.last() == digit_char(n));
        assert(dec_value(Seq::<char>::empty()) == 0);
        assert(dec_value(s) == dec_value(s.drop_last()) * 10 + digit_val(s.last()));
        assert(dec_value(s) == digit_val(digit_char(n)));
        assert(digit_val(digit_char(n)) == n);
    } else {
        lemma_dec_digits_canonical(n / 10);
        let s = dec_digits(n / 10).push(digit_char(n % 10));
        assert(s.drop_last() =~= dec_digits(n / 10));
        assert(s[0] == dec_digits(n / 10)[0]);
    }
}

fn digit_str(d: u64) -> (r: &'static str)
    requires
        d < 10,
    ensures
        r@.len() == 1,
        r@[0] == digit_char(d as nat),
{
    if d == 0 {
        proof { reveal_strlit("0"); }
        "0"
    } else if d == 1 {
        proof { reveal_strlit("1"); }
        "1"
    } else if d == 2 {
        proof { reveal_strlit("2"); }
        "2"
    } else if d == 3 {
        proof { reveal_strlit("3"); }
        "3"
    } else if d == 4 {
        proof { reveal_strlit("4"); }
        "4"
    } else if d == 5 {
        proof { reveal_strlit("5"); }
        "5"
    } else if d == 6 {
        proof { reveal_strlit("6"); }
        "6"
    } else if d == 7 {
        proof { reveal_strlit("7"); }
        "7"
    } else if d == 8 {
        proof { reveal_strlit("8"); }
        "8"
    } else {
        proof { reveal_strlit("9"); }
        "9"
    }
}

/// Writes a number as decimal text.
pub fn format_u64(n: u64) -> (r: String)
    ensures
        r@ == dec_digits(n as nat),
    decreases n,
{
    if n < 10 {
        let r = String::from_str(digit_str(n));
        proof {
            assert(r@ =~= dec_digits(n as nat));
        }
        r
    } else {
        let mut s = format_u64(n / 10);
        s.append(digit_str(n % 10));
        proof {
            assert(s@ =~= dec_digits(n as nat));
        }
        s
    }
}

/// Reads a number from decimal text; None when the text is not the
/// canonical decimal form of a value that fits in u64.
pub fn parse_u64_dec(s: &str) -> (r: Option<u64>)
    ensures
        match r {
            Some(n) => is_canonical_dec(s@) && n as nat == dec_value(s@),
            None => !is_canonical_dec(s@) || dec_value(s@) > u64::MAX,
        },
{
    let len = s.unicode_len();
    if len == 0 {
        return None;
    }
    if len > 1 && s.get_char(0) == '0' {
        return None;
    }
    let mut acc: u64 = 0;
    let mut i: usize = 0;
    while i < len
        invariant
            len == s@.len(),
            0 < len,
            i <= len,
            all_digits(s@.subrange(0, i as int)),
            acc as nat == dec_value(s@.subrange(0, i as int)),
            len > 1 ==> s@[0] != '0',
        decreases len - i,
    {
        let c = s.get_char(i);
        if c < '0' || c > '9' {
            assert(!is_digit(s@[i as int]));
            return None;
        }
        let d: u64 = (c as u32 - 48) as u64;
        proof {
            assert(s@.subrange(0, i + 1).drop_last() =~= s@.subrange(0, i as int));
            assert(s@.subrange(0, i + 1).last() == s@[i as int]);
        }
        if acc > (u64::MAX - d) / 10 {
            proof {
                lemma_dec_value_monotone(s@, i + 1, s@.len() as int);
                assert(s@.subrange(0, s@.len() as int) =~= s@);
            }
            return None;
        }
        acc = acc * 10 + d;
        i = i + 1;
    }
    proof {
        assert(s@.subrange(0, len as int) =~= s@);
    }
    Some(acc)
}

/// A longer canonical-digit prefix never reads as a smaller number.
proof fn lemma_dec_value_monotone(s: Seq<char>, i: int, j: int)
    requires
        0 <= i <= j <= s.len(),
    ensures
        dec_value(s.subrange(0, i)) <= dec_value(s.subrange(0, j)),
    decreases j - i,
{
    if i < j {
        lemma_dec_value_monotone(s, i, j - 1);
        assert(s.subrange(0, j).drop_last() =~= s.subrange(0, j - 1));
    }
}

/// The wire name of a subscription id.
pub open spec fn spec_sub_id(n: nat) -> Seq<char> {
    "sub_"@ + dec_digits(n)
}

/// Writes a subscription id in its wire form.
pub fn format_sub_id(n: u64) -> (r: String)
    ensures
        r@ == spec_sub_id(n as nat),
{
    let mut s = String::from_str("sub_");
    let digits = format_u64(n);
    s.append(digits.as_str());
    s
}

/// The id read from a wire name, when it has the form the crate itself
/// writes: the prefix `sub_` and then a canonical decimal that fits in
/// u64.
pub open spec fn spec_parse_sub_id(s: Seq<char>) -> Option<nat> {
    if s.len() > 4 && s.subrange(0, 4) == "sub_"@ && is_canonical_dec(s.skip(4)) && dec_value(
        s.skip(4),
    ) <= u64::MAX {
        Some(dec_value(s.skip(4)))
    } else {
        None
    }
}

/// Reads a subscription id from its wire form.
pub fn parse_sub_id(s: &str) -> (r: Option<u64>)
    ensures
        match r {
            Some(n) => spec_parse_sub_id(s@) == Some(n as nat),
            None => spec_parse_sub_id(s@) is None,
        },
{
    proof {
        reveal_strlit("sub_");
    }
    let len = s.unicode_len();
    if len <= 4 {
        return None;
    }
    if s.get_char(0) != 's' {
        proof { assert(s@.subrange(0, 4)[0] == s@[0]); }
        return None;
    }
    if s.get_char(1) != 'u' {
        proof { assert(s@.subrange(0, 4)[1] == s@[1]); }
        return None;
    }
    if s.get_char(2) != 'b' {
        proof { assert(s@.subrange(0, 4)[2] == s@[2]); }
        return None;
    }
    if s.get_char(3) != '_' {
        proof { assert(s@.subrange(0, 4)[3] == s@[3]); }
        return None;
    }
    proof {
        assert(s@.subrange(0, 4) =~= "sub_"@);
    }
    let rest = s.substring_char(4, len);
    let r = parse_u64_dec(rest);
    proof {
        assert(rest@ =~= s@.skip(4));
    }
    r
}

/// Writing an id and reading it back yields the same id.
pub proof fn lemma_sub_id_round_trip(n: u64)
    ensures
        spec_parse_sub_id(spec_sub_id(n as nat)) == Some(n as nat),
{
    reveal_strlit("sub_");
    lemma_dec_digits_canonical(n as nat);
    assert(spec_sub_id(n as nat).subrange(0, 4) =~= "sub_"@);
    assert(spec_sub_id(n as nat).skip(4) =~= dec_digits(n as nat));
}

/// Source of fresh subscription ids: hands out the counter values
/// 0, 1, 2, ... in order, so no two live ids ever collide.
pub struct IdGen {
    next: u64,
}

impl IdGen {
    /// The next id that `fresh` will hand out.
    pub closed spec fn counter(self) -> u64 {
        self.next
    }

    pub fn new() -> (r: IdGen)
        ensures
            r.counter() == 0,
    {
        IdGen { next: 0 }
    }

    /// The current counter value, without moving past it.
    pub fn peek(&self) -> (r: u64)
        ensures
            r == self.counter(),
    {
        self.next
    }

    /// Hands out the current counter value and moves past it.
    pub fn fresh(&mut self) -> (r: u64)
        requires
            old(self).counter() < u64::MAX,
        ensures
            r == old(self).counter(),
            final(self).counter() == old(self).counter() + 1,
    {
        let r = self.next;
        self.next = self.next + 1;
        r
    }
}

} // verus!

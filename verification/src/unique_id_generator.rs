//! Identifiers of elements: ordinals counted from 1, written in base 62.
use crate::text::push_char;
use vstd::prelude::*;

verus! {

/// The identity of an element within its group. The value 0 means that no
/// identifier has been given yet.
#[allow(clippy::upper_case_acronyms)]
#[derive(Clone, Copy, Debug, PartialEq, Eq, Structural)]
pub struct UID {
    pub value: u32,
}

/// Hands out the identifiers 1, 2, 3, ... in turn.
pub struct UIDGen {
    pub count: u32,
}

/// The digit of a value below 62: `0-9`, then `a-z`, then `A-Z`.
pub open spec fn base62_digit(d: int) -> char
    recommends
        0 <= d < 62,
{
    if d < 10 {
        ('0' as u32 + d) as char
    } else if d < 36 {
        ('a' as u32 + d - 10) as char
    } else {
        ('A' as u32 + d - 36) as char
    }
}

/// A whole number in base 62, most significant digit first; zero has no
/// digits.
pub open spec fn base62(n: nat) -> Seq<char>
    decreases n,
{
    if n == 0 {
        Seq::empty()
    } else {
        base62(n / 62).push(base62_digit((n % 62) as int))
    }
}

/// What an identifier is written as: `not set` for the value 0, and the
/// value in base 62 otherwise.
pub open spec fn uid_text(value: u32) -> Seq<char> {
    if value == 0 {
        "not set"@
    } else {
        base62(value as nat)
    }
}

fn base62_digit_of(d: u32) -> (c: char)
    requires
        d < 62,
    ensures
        c == base62_digit(d as int),
{
    if d < 10 {
        (48 + d as u8) as char
    } else if d < 36 {
        (97 + (d - 10) as u8) as char
    } else {
        (65 + (d - 36) as u8) as char
    }
}

/// Writes `n` in base 62.
pub fn u32_to_base62(n: u32) -> (s: String)
    ensures
        s@ == base62(n as nat),
{
    let mut rest: u32 = n;
    let mut digits: Vec<char> = Vec::new();
    while rest != 0
        invariant
            base62(n as nat) == base62(rest as nat) + digits@.reverse(),
        decreases rest,
    {
        let d: u32 = rest % 62;
        let c: char = base62_digit_of(d);
        proof {
            let ghost before = digits@;
            assert(base62(rest as nat) == base62((rest / 62) as nat).push(c));
            assert(before.push(c).reverse() =~= seq![c] + before.reverse());
            assert(base62((rest / 62) as nat).push(c) + before.reverse() =~= base62(
                (rest / 62) as nat,
            ) + (seq![c] + before.reverse()));
        }
        digits.push(c);
        rest = rest / 62;
    }
    let mut s: String = String::new();
    let mut i: usize = digits.len();
    assert(base62(n as nat) =~= digits@.reverse());
    while i > 0
        invariant
            i <= digits.len(),
            s@ == digits@.reverse().take((digits.len() - i) as int),
        decreases i,
    {
        i = i - 1;
        push_char(&mut s, digits[i]);
        assert(s@ =~= digits@.reverse().take((digits.len() - i) as int));
    }
    assert(s@ =~= digits@.reverse());
    s
}

impl UID {
    /// The identifier of an element that has none yet.
    pub fn unset() -> (u: UID)
        ensures
            u.value == 0,
    {
        UID { value: 0 }
    }

    /// The identifier as it is written out.
    pub fn to_text(&self) -> (s: String)
        ensures
            s@ == uid_text(self.value),
    {
        if self.value == 0 {
            let mut s: String = String::new();
            s.append("not set");
            assert(s@ =~= "not set"@);
            s
        } else {
            u32_to_base62(self.value)
        }
    }
}

impl UIDGen {
    pub fn new() -> (g: UIDGen)
        ensures
            g.count == 0,
    {
        UIDGen { count: 0 }
    }

    /// The next identifier: one more than the last.
    pub fn gen(&mut self) -> (u: UID)
        requires
            old(self).count < u32::MAX,
        ensures
            final(self).count == old(self).count + 1,
            u.value == old(self).count + 1,
    {
        self.count += 1;
        UID { value: self.count }
    }
}

} // verus!

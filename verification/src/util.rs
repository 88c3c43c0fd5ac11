//! Human-readable renderings of byte counts and durations, over exact
//! integer specifications.

use vstd::prelude::*;

use crate::text::{dec2_str, dec_str, push_2digits, push_u64};

verus! {

/// A byte count, rendered as `B`, `KB`, `MB` or `GB` with two decimal
/// places (rounded half-up).
pub struct FormatBytes(pub u64);

/// `v` hundredths, rendered as `whole.fraction` with two fraction
/// digits.
pub open spec fn scaled_str(v: nat) -> Seq<char> {
    dec_str(v / 100) + seq!['.'] + dec2_str(v % 100)
}

/// The rendering of a byte count `n`.
pub open spec fn bytes_str(n: nat) -> Seq<char> {
    if n < 1000 {
        dec_str(n) + " B"@
    } else if n < 1000000 {
        scaled_str((n + 5) / 10) + " KB"@
    } else if n < 1000000000 {
        scaled_str((n + 5000) / 10000) + " MB"@
    } else {
        scaled_str((n + 5000000) / 10000000) + " GB"@
    }
}

/// Appends `v` hundredths as `whole.fraction` with two fraction
/// digits.
pub fn push_scaled(s: &mut String, v: u64)
    ensures
        final(s)@ == old(s)@ + scaled_str(v as nat),
{
    push_u64(s, v / 100);
    s.append(".");
    push_2digits(s, v % 100);
    proof {
        reveal_strlit(".");
        assert(s@ =~= old(s)@ + scaled_str(v as nat));
    }
}

impl FormatBytes {
    /// The rendering of this byte count.
    pub fn render(&self) -> (r: String)
        ensures
            r@ == bytes_str(self.0 as nat),
    {
        let n = self.0;
        let mut s = String::new();
        if n < 1000 {
            push_u64(&mut s, n);
            s.append(" B");
        } else if n < 1000000 {
            push_scaled(&mut s, (n + 5) / 10);
            s.append(" KB");
        } else if n < 1000000000 {
            push_scaled(&mut s, (n + 5000) / 10000);
            s.append(" MB");
        } else {
            let v = ((n as u128 + 5000000) / 10000000) as u64;
            assert(v as nat == (n as nat + 5000000) / 10000000);
            push_scaled(&mut s, v);
            s.append(" GB");
        }
        proof {
            assert(s@ =~= bytes_str(self.0 as nat));
        }
        s
    }
}

/// A duration split into hours, minutes and seconds, rendered as
/// `h:mm:ss`.
pub struct FormatTime(pub u64, pub u8, pub u8);

/// The rendering of `h` hours, `m` minutes and `s` seconds.
pub open spec fn time_str(h: nat, m: nat, s: nat) -> Seq<char> {
    dec_str(h) + seq![':'] + dec2_str(m) + seq![':'] + dec2_str(s)
}

impl FormatTime {
    /// Splits a duration in seconds into hours, minutes and seconds.
    pub fn from_s(s: u64) -> (r: FormatTime)
        ensures
            r.0 == s / 3600,
            r.1 == (s / 60) % 60,
            r.2 == s % 60,
            s == 3600 * r.0 + 60 * r.1 + r.2,
    {
        let seconds = (s % 60) as u8;
        let tot_min = s / 60;
        let minutes = (tot_min % 60) as u8;
        let hours = tot_min / 60;
        proof {
            vstd::arithmetic::div_mod::lemma_div_denominator(s as int, 60, 60);
            vstd::arithmetic::div_mod::lemma_fundamental_div_mod(s as int, 60);
            vstd::arithmetic::div_mod::lemma_fundamental_div_mod(tot_min as int, 60);
        }
        FormatTime(hours, minutes, seconds)
    }

    /// The rendering of this duration.
    pub fn render(&self) -> (r: String)
        requires
            self.1 < 100,
            self.2 < 100,
        ensures
            r@ == time_str(self.0 as nat, self.1 as nat, self.2 as nat),
    {
        let mut s = String::new();
        push_u64(&mut s, self.0);
        s.append(":");
        push_2digits(&mut s, self.1 as u64);
        s.append(":");
        push_2digits(&mut s, self.2 as u64);
        proof {
            reveal_strlit(":");
            assert(s@ =~= time_str(self.0 as nat, self.1 as nat, self.2 as nat));
        }
        s
    }
}

} // verus!

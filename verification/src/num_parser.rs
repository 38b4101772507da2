//! Rendering a solve duration as text: the plain seconds string with
//! three decimals, and the large ASCII-art block built from it.

use vstd::prelude::*;

use crate::asci::digit_type::DigitType;
use crate::asci::digits::{drawable, font_height, get_digits, row_width};
use crate::solve_time::SolveTime;
use crate::text::{dec_str, u128_to_dec, u64_to_dec};
use vstd::string::{StrSliceExecFns, StringExecFns};

verus! {

/// The duration rounded to whole milliseconds, as `{:.3}` rounds.
pub open spec fn rounded_millis(t: SolveTime) -> int {
    (t.total_nanos() + 500_000) / 1_000_000
}

/// The milliseconds part padded to three digits.
pub open spec fn pad3(n: int) -> Seq<char> {
    if n < 10 {
        seq!['0', '0'] + dec_str(n)
    } else if n < 100 {
        seq!['0'] + dec_str(n)
    } else {
        dec_str(n)
    }
}

/// The displayed text of a duration: whole seconds, a point, and three
/// decimal places.
pub open spec fn time_text(t: SolveTime) -> Seq<char> {
    dec_str(rounded_millis(t) / 1000) + seq!['.'] + pad3(rounded_millis(t) % 1000)
}

/// Renders a duration with three decimal places.
pub fn time_str(t: &SolveTime) -> (r: String)
    requires
        t.wf(),
    ensures
        r@ == time_text(*t),
{
    proof {
        reveal_strlit(".");
        reveal_strlit("0");
        reveal_strlit("00");
    }
    let total: u128 = (t.secs as u128) * 1_000_000_000 + (t.nanos as u128);
    let rm = (total + 500_000) / 1_000_000;
    let ms = (rm % 1000) as u64;
    let mut s = u128_to_dec(rm / 1000);
    s.append(".");
    if ms < 10 {
        s.append("00");
    } else if ms < 100 {
        s.append("0");
    }
    let msd = u64_to_dec(ms);
    s.append(msd.as_str());
    proof {
        assert("."@ =~= seq!['.']);
        assert("00"@ =~= seq!['0', '0']);
        assert("0"@ =~= seq!['0']);
        assert(s@ =~= time_text(*t));
    }
    s
}

/// Gets the on-screen width of a rendered block: the width of its first
/// row, or zero for an empty block.
pub fn get_time_length(time: &Vec<String>) -> (r: usize)
    ensures
        time@.len() == 0 ==> r == 0,
        time@.len() > 0 ==> r == time@[0]@.len(),
{
    if time.len() == 0 {
        return 0;
    }
    time[0].as_str().unicode_len()
}

/// The width of a rendered text in a font: each character contributes
/// its own row width.
pub open spec fn block_width(font: DigitType, s: Seq<char>) -> int
    decreases s.len(),
{
    if s.len() == 0 {
        0
    } else {
        block_width(font, s.drop_last()) + row_width(font, s.last())
    }
}

/// Renders a drawable text as a block of ASCII-art rows: one string per
/// font row, each as wide as the sum of the characters' widths.
pub fn time_rows(s: &str, font: &DigitType) -> (r: Vec<String>)
    requires
        forall|i: int| 0 <= i < s@.len() ==> drawable(#[trigger] s@[i]),
    ensures
        r@.len() == font_height(*font),
        forall|i: int| 0 <= i < r@.len() ==> (#[trigger] r@[i])@.len() == block_width(*font, s@),
{
    let h: usize = match font {
        DigitType::Italic => 5,
        DigitType::Train => 6,
        DigitType::Card => 6,
    };
    let n = s.unicode_len();
    let mut out: Vec<String> = Vec::new();
    let mut row: usize = 0;
    while row < h
        invariant
            row <= h,
            h == font_height(*font),
            n == s@.len(),
            forall|i: int| 0 <= i < s@.len() ==> drawable(#[trigger] s@[i]),
            out@.len() == row,
            forall|i: int| 0 <= i < row ==> (#[trigger] out@[i])@.len() == block_width(*font, s@),
        decreases h - row,
    {
        let mut line = String::new();
        let mut k: usize = 0;
        proof {
            assert(block_width(*font, s@.subrange(0, 0)) == 0);
        }
        while k < n
            invariant
                k <= n,
                row < h,
                h == font_height(*font),
                n == s@.len(),
                forall|i: int| 0 <= i < s@.len() ==> drawable(#[trigger] s@[i]),
                line@.len() == block_width(*font, s@.subrange(0, k as int)),
            decreases n - k,
        {
            let c = s.get_char(k);
            let cell = get_digits(font, c);
            line.append(cell[row].as_str());
            proof {
                assert(s@.subrange(0, k + 1).drop_last() =~= s@.subrange(0, k as int));
                assert(s@.subrange(0, k + 1).last() == s@[k as int]);
            }
            k += 1;
        }
        proof {
            assert(s@.subrange(0, n as int) =~= s@);
        }
        out.push(line);
        row += 1;
    }
    out
}

} // verus!

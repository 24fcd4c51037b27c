//! Auto-fit: the factor by which the font size of an element is scaled so that its expanded
//! lines fit the room that was budgeted for the declared ones.

use vstd::prelude::*;
use vstd::string::*;

verus! {

/// A non-negative fraction. A denominator of zero puts no bound on anything.
pub struct Fraction {
    pub num: nat,
    pub den: nat,
}

impl Fraction {
    /// Whether the fraction has a value, that is, a denominator other than zero.
    pub open spec fn bounded(self) -> bool {
        self.den > 0
    }

    /// `self <= other`, compared exactly by cross-multiplication. A fraction `k/0` with
    /// `k > 0` is thereby larger than every bounded one.
    pub open spec fn at_most(self, other: Fraction) -> bool {
        self.num * other.den <= other.num * self.den
    }

    /// The smaller of two fractions; `self` where they are equal. A fraction that is not
    /// bounded gives way to the other one.
    pub open spec fn lesser(self, other: Fraction) -> Fraction {
        if !self.bounded() {
            other
        } else if !other.bounded() {
            self
        } else if self.at_most(other) {
            self
        } else {
            other
        }
    }
}

/// A fraction of two machine integers, exact: nothing is rounded until the caller divides.
#[derive(Debug, Clone, Copy, PartialEq, Eq, Structural)]
pub struct Ratio {
    pub num: usize,
    pub den: usize,
}

impl View for Ratio {
    type V = Fraction;

    open spec fn view(&self) -> Fraction {
        Fraction { num: self.num as nat, den: self.den as nat }
    }
}

impl Ratio {
    /// The smaller of two ratios.
    pub fn lesser(self, other: Ratio) -> (least: Ratio)
        ensures
            least@ == self@.lesser(other@),
    {
        if self.den == 0 {
            other
        } else if other.den == 0 {
            self
        } else {
            assert(self.num * other.den <= u128::MAX && other.num * self.den <= u128::MAX)
                by (nonlinear_arith)
                requires
                    self.num <= u64::MAX,
                    self.den <= u64::MAX,
                    other.num <= u64::MAX,
                    other.den <= u64::MAX,
            ;
            if (self.num as u128) * (other.den as u128) <= (other.num as u128) * (self.den as u128) {
                self
            } else {
                other
            }
        }
    }
}

/// The character count of the longest of `lines`; 0 where there is none.
pub open spec fn widest(lines: Seq<Seq<char>>) -> nat
    decreases lines.len(),
{
    if lines.len() == 0 {
        0
    } else if lines.last().len() > widest(lines.drop_last()) {
        lines.last().len()
    } else {
        widest(lines.drop_last())
    }
}

/// The character count of the longest of `lines`, and 1 where there is no line at all.
pub open spec fn max_len(lines: Seq<Seq<char>>) -> nat {
    if lines.len() == 0 {
        1
    } else {
        widest(lines)
    }
}

/// The ratio of the lines that an element declares to the lines that it expands to.
pub open spec fn magnitude(lines: Seq<Seq<char>>, slots: nat) -> Fraction {
    Fraction { num: slots, den: lines.len() }
}

/// The ratio of the column cap to the longest line.
pub open spec fn column_ratio(lines: Seq<Seq<char>>, cap: nat) -> Fraction {
    Fraction { num: cap, den: max_len(lines) }
}

/// The factor by which the base font size of an element is scaled: its magnitude, or, where
/// a column cap is set, the smaller of the cap's ratio and the magnitude.
pub open spec fn scale(lines: Seq<Seq<char>>, slots: nat, column: Option<usize>) -> Fraction {
    match column {
        Some(cap) => column_ratio(lines, cap as nat).lesser(magnitude(lines, slots)),
        None => magnitude(lines, slots),
    }
}

/// The character count of the longest string of `ss`, and 1 where `ss` is empty.
pub fn maxlen(ss: &[String]) -> (len: usize)
    ensures
        len == max_len(ss.deep_view()),
{
    if ss.len() == 0 {
        return 1;
    }
    let mut len: usize = 0;
    let mut i: usize = 0;
    while i < ss.len()
        invariant
            i <= ss.len(),
            len == widest(ss.deep_view().take(i as int)),
        decreases ss.len() - i,
    {
        let n = ss[i].as_str().unicode_len();
        if n > len {
            len = n;
        }
        i += 1;
        proof {
            let upto = ss.deep_view().take(i as int);
            assert(upto.drop_last() =~= ss.deep_view().take(i - 1));
            assert(upto.last() == ss[i - 1]@);
        }
    }
    assert(ss.deep_view().take(i as int) =~= ss.deep_view());
    len
}

/// The scale factor for the expanded lines `vecstr` of an element that declares `tl` lines
/// and has the column cap `col`. The font size of every line of the element is its base font
/// size times this factor.
pub fn fontscale(vecstr: &[String], tl: usize, col: Option<usize>) -> (factor: Ratio)
    ensures
        factor@ == scale(vecstr.deep_view(), tl as nat, col),
{
    let mag = Ratio { num: tl, den: vecstr.len() };
    match col {
        Some(cap) => {
            let len = maxlen(vecstr);
            Ratio { num: cap, den: len }.lesser(mag)
        },
        None => mag,
    }
}

} // verus!

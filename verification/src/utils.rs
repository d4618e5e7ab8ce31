//! Small helpers for text and for indexing a flattened grid.

use vstd::prelude::*;
use vstd::string::StringExecFns;

verus! {

/// `base` written `times` times in a row.
pub open spec fn repeated(base: Seq<char>, times: nat) -> Seq<char>
    decreases times,
{
    if times == 0 {
        Seq::empty()
    } else {
        repeated(base, (times - 1) as nat) + base
    }
}

/// A new string that holds `base` once and then `n` times more.
pub fn str_repeat(base: &str, n: usize) -> (string: String)
    ensures
        string@ == repeated(base@, (n + 1) as nat),
{
    let mut string = String::from_str(base);
    proof {
        assert(repeated(base@, 1) =~= base@) by {
            reveal_with_fuel(repeated, 2);
        }
    }
    let mut i: usize = 0;
    while i < n
        invariant
            i <= n,
            string@ == repeated(base@, (i + 1) as nat),
        decreases n - i,
    {
        string.append(base);
        i += 1;
    }
    string
}

/// The pair of row and column for the index `simple` into a flattened grid
/// whose rows hold `rows` cells each.
pub fn from_simple(simple: usize, rows: usize) -> (pair: (usize, usize))
    requires
        rows > 0,
    ensures
        pair.0 == simple / rows,
        pair.1 == simple % rows,
        pair.1 < rows,
        pair.0 * rows + pair.1 == simple,
{
    proof {
        vstd::arithmetic::div_mod::lemma_fundamental_div_mod(simple as int, rows as int);
        assert((simple / rows) * rows == rows * (simple / rows)) by (nonlinear_arith);
    }
    (simple / rows, simple % rows)
}

} // verus!

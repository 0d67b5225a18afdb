//! Text building blocks shared by the renderers: separator-joined lists,
//! decimal rendering of indices, and the specification-level sequences
//! they produce. Every diagnostic and code-facing renderer in the crate
//! is written against these, so there is one canonical rendering of each
//! construct.

use vstd::prelude::*;
use vstd::string::StringExecFns;

verus! {

/// The items joined by the separator: empty for no items, and no
/// trailing separator.
pub open spec fn sep_join(items: Seq<Seq<char>>, sep: Seq<char>) -> Seq<char>
    decreases items.len(),
{
    if items.len() == 0 {
        Seq::empty()
    } else if items.len() == 1 {
        items[0]
    } else {
        items[0] + sep + sep_join(items.drop_first(), sep)
    }
}

/// Unfolds `sep_join` from the back: appending one more item appends a
/// separator (when anything was there) and the item.
pub proof fn lemma_sep_join_push(items: Seq<Seq<char>>, sep: Seq<char>, last: Seq<char>)
    ensures
        items.len() == 0 ==> sep_join(items.push(last), sep) == last,
        items.len() > 0 ==> sep_join(items.push(last), sep) == sep_join(items, sep) + sep
            + last,
    decreases items.len(),
{
    if items.len() == 0 {
        assert(items.push(last)[0] == last);
        assert(sep_join(items.push(last), sep) == last);
    } else {
        lemma_sep_join_push(items.drop_first(), sep, last);
        assert(items.push(last).drop_first() =~= items.drop_first().push(last));
        if items.len() == 1 {
            assert(sep_join(items.push(last), sep) == items[0] + sep + last);
        } else {
            assert(sep_join(items, sep) + sep + last == items[0] + sep + (sep_join(
                items.drop_first(),
                sep,
            ) + sep + last));
        }
    }
}

/// The character for one decimal digit.
pub open spec fn digit_char(d: nat) -> char {
    if d == 0 {
        '0'
    } else if d == 1 {
        '1'
    } else if d == 2 {
        '2'
    } else if d == 3 {
        '3'
    } else if d == 4 {
        '4'
    } else if d == 5 {
        '5'
    } else if d == 6 {
        '6'
    } else if d == 7 {
        '7'
    } else if d == 8 {
        '8'
    } else {
        '9'
    }
}

/// The usual decimal rendering of a number: most significant digit
/// first, no leading zeros except for zero itself.
pub open spec fn dec_text(n: nat) -> Seq<char>
    decreases n,
{
    if n < 10 {
        seq![digit_char(n)]
    } else {
        dec_text(n / 10).push(digit_char(n % 10))
    }
}

fn digit_str(d: u32) -> (r: &'static str)
    requires
        d < 10,
    ensures
        r@ =~= seq![digit_char(d as nat)],
{
    if d == 0 {
        proof {
            reveal_strlit("0");
        }
        "0"
    } else if d == 1 {
        proof {
            reveal_strlit("1");
        }
        "1"
    } else if d == 2 {
        proof {
            reveal_strlit("2");
        }
        "2"
    } else if d == 3 {
        proof {
            reveal_strlit("3");
        }
        "3"
    } else if d == 4 {
        proof {
            reveal_strlit("4");
        }
        "4"
    } else if d == 5 {
        proof {
            reveal_strlit("5");
        }
        "5"
    } else if d == 6 {
        proof {
            reveal_strlit("6");
        }
        "6"
    } else if d == 7 {
        proof {
            reveal_strlit("7");
        }
        "7"
    } else if d == 8 {
        proof {
            reveal_strlit("8");
        }
        "8"
    } else {
        proof {
            reveal_strlit("9");
        }
        "9"
    }
}

/// Renders a number in decimal.
pub fn u32_string(n: u32) -> (r: String)
    ensures
        r@ == dec_text(n as nat),
    decreases n,
{
    if n < 10 {
        let mut s = String::new();
        s.append(digit_str(n));
        proof {
            assert(s@ =~= dec_text(n as nat));
        }
        s
    } else {
        let mut s = u32_string(n / 10);
        s.append(digit_str(n % 10));
        proof {
            assert(s@ =~= dec_text(n as nat));
        }
        s
    }
}

} // verus!

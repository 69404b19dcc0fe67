//! Shading policy: one symbol per classified grid cell.
use vstd::prelude::*;

verus! {

/// The symbol that stands for a convergence result: `@` for a point that
/// never escaped, otherwise a gradient over bands of one hundred iterations.
pub open spec fn shade_of(result: Option<u16>) -> char {
    match result {
        None => '@',
        Some(k) => if k <= 100 {
            ' '
        } else if k <= 200 {
            '.'
        } else if k <= 300 {
            ':'
        } else if k <= 400 {
            '-'
        } else if k <= 500 {
            '='
        } else if k <= 600 {
            '+'
        } else if k <= 700 {
            '*'
        } else if k <= 800 {
            '#'
        } else {
            '%'
        },
    }
}

/// The symbols that a frame may hold.
pub open spec fn is_shade_symbol(c: char) -> bool {
    c == '@' || c == ' ' || c == '.' || c == ':' || c == '-' || c == '=' || c == '+' || c
        == '*' || c == '#' || c == '%'
}

/// Every convergence result is drawn with one of the frame's symbols.
pub proof fn lemma_shade_is_symbol(result: Option<u16>)
    ensures
        is_shade_symbol(shade_of(result)),
{
}

/// The symbol for a convergence result, as a one-character string.
pub fn shade_symbol(result: Option<u16>) -> (s: &'static str)
    ensures
        s@ == seq![shade_of(result)],
{
    match result {
        None => {
            proof {
                reveal_strlit("@");
            }
            "@"
        },
        Some(k) => if k <= 100 {
            proof {
                reveal_strlit(" ");
            }
            " "
        } else if k <= 200 {
            proof {
                reveal_strlit(".");
            }
            "."
        } else if k <= 300 {
            proof {
                reveal_strlit(":");
            }
            ":"
        } else if k <= 400 {
            proof {
                reveal_strlit("-");
            }
            "-"
        } else if k <= 500 {
            proof {
                reveal_strlit("=");
            }
            "="
        } else if k <= 600 {
            proof {
                reveal_strlit("+");
            }
            "+"
        } else if k <= 700 {
            proof {
                reveal_strlit("*");
            }
            "*"
        } else if k <= 800 {
            proof {
                reveal_strlit("#");
            }
            "#"
        } else {
            proof {
                reveal_strlit("%");
            }
            "%"
        },
    }
}

/// Appends the symbol of one convergence result to a frame buffer.
pub fn push_pixel(convergence_result: Option<u16>, buffer: &mut String)
    ensures
        final(buffer)@ == old(buffer)@.push(shade_of(convergence_result)),
{
    let s = shade_symbol(convergence_result);
    buffer.append(s);
}

} // verus!

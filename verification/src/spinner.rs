//! Spinner and loading indicator frames.

use vstd::prelude::*;

verus! {

/// The braille frame shown for one animation tick.
pub open spec fn spec_spinner(frame: u64) -> Seq<char> {
    let i = frame % 10;
    if i == 0 {
        "\u{280b}"@
    } else if i == 1 {
        "\u{2819}"@
    } else if i == 2 {
        "\u{2839}"@
    } else if i == 3 {
        "\u{2838}"@
    } else if i == 4 {
        "\u{283c}"@
    } else if i == 5 {
        "\u{2834}"@
    } else if i == 6 {
        "\u{2826}"@
    } else if i == 7 {
        "\u{2827}"@
    } else if i == 8 {
        "\u{2807}"@
    } else {
        "\u{280f}"@
    }
}

/// Get a braille spinner frame: a smooth ten-frame animation.
pub fn spinner(frame: u64) -> (r: &'static str)
    ensures
        r@ == spec_spinner(frame),
{
    let i = frame % 10;
    if i == 0 {
        "\u{280b}"
    } else if i == 1 {
        "\u{2819}"
    } else if i == 2 {
        "\u{2839}"
    } else if i == 3 {
        "\u{2838}"
    } else if i == 4 {
        "\u{283c}"
    } else if i == 5 {
        "\u{2834}"
    } else if i == 6 {
        "\u{2826}"
    } else if i == 7 {
        "\u{2827}"
    } else if i == 8 {
        "\u{2807}"
    } else {
        "\u{280f}"
    }
}

} // verus!

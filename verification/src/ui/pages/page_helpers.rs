//! Fitting a text into a column of a given width.

use vstd::prelude::*;
use vstd::utf8::encode_utf8;

verus! {

/// What `ellipse::Ellipse::truncate_ellipse` makes of a text and a length.
pub uninterp spec fn ellipse_truncated(text: Seq<char>, len: usize) -> Seq<char>;

/// Cuts `text` down to `len` grapheme clusters and marks the cut. Calls
/// `truncate_ellipse` of the crate `ellipse` on the text and copies the
/// result into a `String`; the result depends on the text and the length
/// alone.
#[verifier::external_body]
fn truncate_with_ellipse(text: &str, len: usize) -> (cut: String)
    ensures
        cut@ == ellipse_truncated(text@, len),
{
    ellipse::Ellipse::truncate_ellipse(&text, len).into_owned()
}

/// The character `c`, `n` times.
pub open spec fn repeated(c: char, n: nat) -> Seq<char> {
    Seq::new(n, |i: int| c)
}

/// The text of a column of width `width` that shows `text`:
/// blanks for an empty text; the text itself where its length in bytes is the
/// width; dots alone where the width is under four; the text padded with
/// blanks on the right, up to `width` characters, where it is shorter in
/// bytes; else the text cut down to `width - 3` clusters with its mark.
pub open spec fn column_text(text: Seq<char>, width: usize) -> Seq<char> {
    let bytes = encode_utf8(text).len() as usize;
    if text.len() == 0 {
        repeated(' ', width as nat)
    } else if bytes == width {
        text
    } else if width < 4 {
        repeated('.', width as nat)
    } else if bytes < width {
        if text.len() < width {
            text + repeated(' ', (width - text.len()) as nat)
        } else {
            text
        }
    } else {
        ellipse_truncated(text, (width - 3) as usize)
    }
}

/// The one character of `unit`, `n` times.
fn repeat_char(unit: &str, n: usize) -> (s: String)
    requires
        unit@.len() == 1,
    ensures
        s@ == repeated(unit@[0], n as nat),
{
    let mut s = String::new();
    let mut i: usize = 0;
    assert(s@ =~= repeated(unit@[0], 0));
    while i < n
        invariant
            i <= n,
            unit@.len() == 1,
            s@ == repeated(unit@[0], i as nat),
        decreases n - i,
    {
        s.append(unit);
        i += 1;
        assert(s@ =~= repeated(unit@[0], i as nat));
    }
    s
}

/// The text of a column of width `width` that shows `text`.
pub fn get_column_string(text: &str, width: usize) -> (column: String)
    ensures
        column@ == column_text(text@, width),
{
    proof {
        reveal_strlit(" ");
        reveal_strlit(".");
    }
    if text.is_empty() {
        return repeat_char(" ", width);
    }
    if text.len() == width {
        return text.to_owned();
    }
    if width < 4 {
        return repeat_char(".", width);
    }
    if text.len() < width {
        let shown = text.unicode_len();
        let mut column = text.to_owned();
        if shown < width {
            let blanks = repeat_char(" ", width - shown);
            column.append(blanks.as_str());
        }
        return column;
    }
    truncate_with_ellipse(text, width - 3)
}

} // verus!

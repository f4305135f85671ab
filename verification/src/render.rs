//! From a birth date, an age and a document to the picture of the chart.

use crate::chart::chart_of;
use crate::composite::{composite, composited};
use crate::document::{Document, DocumentView, Pixel};
use crate::order::{calcl, paint_order};
use crate::png::{encode_png, encodes, EncodeError};
use vstd::prelude::*;

verus! {

/// Whether `canvas` is the canvas of the document with the layers of the
/// chart of a date and an age painted over it.
pub open spec fn rendered<F: Fn(Pixel, Pixel) -> Pixel>(
    blend: F,
    day: nat,
    month: nat,
    year: nat,
    age: nat,
    document: DocumentView,
    canvas: Seq<u8>,
) -> bool {
    composited(blend, document, paint_order(chart_of(day, month, year, age)), canvas)
}

/// Draws the chart of a birth date and an age: paints the layers that the
/// chart names over the canvas of the document and encodes the outcome as a
/// PNG file of the document's size. The document itself is left as it was.
/// A document without width or without height has no picture.
pub fn generate<F: Fn(Pixel, Pixel) -> Pixel>(
    j: usize,
    m: usize,
    a: usize,
    age: usize,
    document: &Document,
    blend: &F,
) -> (picture: Result<Vec<u8>, EncodeError>)
    requires
        forall|source: Pixel, below: Pixel| call_requires(*blend, (source, below)),
    ensures
        exists|canvas: Seq<u8>| #[trigger]
            rendered(*blend, j as nat, m as nat, a as nat, age as nat, document@, canvas)
                && encodes(picture, document@.width, document@.height, canvas),
        document@.width == 0 || document@.height == 0 ==> picture is Err,
{
    let calques = calcl(j, m, a, age);
    let canvas = composite(document, &calques, blend);
    proof {
        assert(rendered(*blend, j as nat, m as nat, a as nat, age as nat, document@, canvas@));
    }
    encode_png(document.width(), document.height(), &canvas)
}

} // verus!

//! Painting layers over a canvas.
//!
//! The compositor walks the canvas pixel by pixel and leaves the arithmetic
//! of one pixel to the blend that its caller hands in. A pixel of the layer
//! whose alpha is zero is passed over: the canvas keeps its pixel there and
//! the blend is not asked. A layer that is not as long as the canvas is
//! passed over whole.

use crate::document::{Document, DocumentView, LayerView, Pixel};
use vstd::prelude::*;

verus! {

/// The pixel at place `p` of a buffer.
pub open spec fn pixel_at(buffer: Seq<u8>, p: int) -> Pixel {
    Pixel {
        red: buffer[4 * p],
        green: buffer[4 * p + 1],
        blue: buffer[4 * p + 2],
        alpha: buffer[4 * p + 3],
    }
}

/// Whether `result` may stand where `source` was painted over `below`: it is
/// `below` itself under a transparent source, and otherwise what the blend
/// gives for the two.
pub open spec fn pixel_painted<F: Fn(Pixel, Pixel) -> Pixel>(
    blend: F,
    source: Pixel,
    below: Pixel,
    result: Pixel,
) -> bool {
    if source.alpha == 0 {
        result == below
    } else {
        call_ensures(blend, (source, below), result)
    }
}

/// Whether `after` is `before` with one layer painted over it. A layer of
/// another length leaves the canvas as it is. Bytes behind the last whole
/// pixel are never touched.
pub open spec fn painted<F: Fn(Pixel, Pixel) -> Pixel>(
    blend: F,
    before: Seq<u8>,
    layer: Seq<u8>,
    after: Seq<u8>,
) -> bool {
    if layer.len() != before.len() {
        after == before
    } else {
        &&& after.len() == before.len()
        &&& forall|p: int|
            0 <= p < before.len() / 4 ==> pixel_painted(
                blend,
                pixel_at(layer, p),
                pixel_at(before, p),
                #[trigger] pixel_at(after, p),
            )
        &&& forall|i: int| 4 * (before.len() / 4) <= i < before.len() ==> after[i] == before[i]
    }
}

/// Whether `after` is `before` with the layers painted over it one after the
/// other, each over what the ones before it left.
pub open spec fn painted_all<F: Fn(Pixel, Pixel) -> Pixel>(
    blend: F,
    before: Seq<u8>,
    layers: Seq<Seq<u8>>,
    after: Seq<u8>,
) -> bool
    decreases layers.len(),
{
    if layers.len() == 0 {
        after == before
    } else {
        exists|middle: Seq<u8>|
            painted_all(blend, before, layers.drop_last(), middle) && #[trigger] painted(
                blend,
                middle,
                layers.last(),
                after,
            )
    }
}

/// The places, among the first `k` layers, of the layers that bear a name, in
/// the order of the document.
pub open spec fn named_upto(names: Seq<Seq<char>>, name: Seq<char>, k: int) -> Seq<int>
    decreases k,
{
    if k <= 0 {
        Seq::empty()
    } else {
        let before = named_upto(names, name, k - 1);
        if names[k - 1] == name {
            before.push(k - 1)
        } else {
            before
        }
    }
}

/// The places of all the layers that bear a name. The name is matched whole,
/// and layers that share it are all found.
pub open spec fn named(names: Seq<Seq<char>>, name: Seq<char>) -> Seq<int> {
    named_upto(names, name, names.len() as int)
}

/// The places of the layers that a paint order paints, first to last: for
/// each name of the order in turn, every layer of that name.
pub open spec fn selection(names: Seq<Seq<char>>, order: Seq<Seq<char>>) -> Seq<int>
    decreases order.len(),
{
    if order.len() == 0 {
        Seq::empty()
    } else {
        selection(names, order.drop_last()) + named(names, order.last())
    }
}

/// Places as the integers that they are.
pub open spec fn places(chosen: Seq<usize>) -> Seq<int> {
    chosen.map_values(|place: usize| place as int)
}

/// The buffers of the layers at the given places.
pub open spec fn buffers(layers: Seq<LayerView>, chosen: Seq<int>) -> Seq<Seq<u8>> {
    chosen.map_values(|place: int| layers[place].pixels)
}

/// Those of the given places whose layer is not as long as the canvas, and
/// so cannot be painted.
pub open spec fn unpaintable(layers: Seq<LayerView>, length: nat, chosen: Seq<int>) -> Seq<int>
    decreases chosen.len(),
{
    if chosen.len() == 0 {
        Seq::empty()
    } else {
        let before = unpaintable(layers, length, chosen.drop_last());
        if layers[chosen.last()].pixels.len() != length {
            before.push(chosen.last())
        } else {
            before
        }
    }
}

/// Whether `canvas` is the canvas of the document with the layers of a
/// paint order painted over it.
pub open spec fn composited<F: Fn(Pixel, Pixel) -> Pixel>(
    blend: F,
    document: DocumentView,
    order: Seq<Seq<char>>,
    canvas: Seq<u8>,
) -> bool {
    painted_all(
        blend,
        document.canvas,
        buffers(document.layers, selection(document.names(), order)),
        canvas,
    )
}

/// Painting a layer whose pixels are all transparent changes nothing,
/// whatever the blend.
pub proof fn lemma_transparent_layer<F: Fn(Pixel, Pixel) -> Pixel>(
    blend: F,
    before: Seq<u8>,
    layer: Seq<u8>,
    after: Seq<u8>,
)
    requires
        painted(blend, before, layer, after),
        transparent(layer),
    ensures
        after == before,
{
    if layer.len() == before.len() {
        assert forall|i: int| 0 <= i < before.len() implies after[i] == before[i] by {
            let p = i / 4;
            if p < before.len() / 4 {
                assert(pixel_at(after, p) == pixel_at(before, p));
            }
        }
    }
}

/// Painting some layers and then some more is painting them all in one
/// pass: nothing happens to the canvas between two passes.
pub proof fn lemma_passes_join<F: Fn(Pixel, Pixel) -> Pixel>(
    blend: F,
    before: Seq<u8>,
    first: Seq<Seq<u8>>,
    between: Seq<u8>,
    second: Seq<Seq<u8>>,
    after: Seq<u8>,
)
    requires
        painted_all(blend, before, first, between),
        painted_all(blend, between, second, after),
    ensures
        painted_all(blend, before, first + second, after),
    decreases second.len(),
{
    if second.len() > 0 {
        let middle = choose|middle: Seq<u8>|
            painted_all(blend, between, second.drop_last(), middle) && #[trigger] painted(
                blend,
                middle,
                second.last(),
                after,
            );
        lemma_passes_join(blend, before, first, between, second.drop_last(), middle);
        assert((first + second).drop_last() =~= first + second.drop_last());
        assert(painted(blend, middle, (first + second).last(), after));
    }
}

/// One pass over all the layers can be read as two: there is a canvas in
/// between that the first layers give and that the others start from.
pub proof fn lemma_pass_splits<F: Fn(Pixel, Pixel) -> Pixel>(
    blend: F,
    before: Seq<u8>,
    first: Seq<Seq<u8>>,
    second: Seq<Seq<u8>>,
    after: Seq<u8>,
)
    requires
        painted_all(blend, before, first + second, after),
    ensures
        exists|between: Seq<u8>| #[trigger]
            painted_all(blend, before, first, between) && painted_all(
                blend,
                between,
                second,
                after,
            ),
    decreases second.len(),
{
    if second.len() == 0 {
        assert(first + second =~= first);
    } else {
        let all = first + second;
        let middle = choose|middle: Seq<u8>|
            painted_all(blend, before, all.drop_last(), middle) && #[trigger] painted(
                blend,
                middle,
                all.last(),
                after,
            );
        assert(all.drop_last() =~= first + second.drop_last());
        lemma_pass_splits(blend, before, first, second.drop_last(), middle);
        let between = choose|between: Seq<u8>| #[trigger]
            painted_all(blend, before, first, between) && painted_all(
                blend,
                between,
                second.drop_last(),
                middle,
            );
        assert(painted(blend, middle, second.last(), after));
    }
}

/// Whether every pixel of a layer is transparent.
pub open spec fn transparent(layer: Seq<u8>) -> bool {
    forall|p: int| 0 <= p < layer.len() / 4 ==> (#[trigger] pixel_at(layer, p)).alpha == 0
}

/// Painting layers that are all transparent changes nothing, however many
/// they are and whatever the blend.
pub proof fn lemma_transparent_layers<F: Fn(Pixel, Pixel) -> Pixel>(
    blend: F,
    before: Seq<u8>,
    layers: Seq<Seq<u8>>,
    after: Seq<u8>,
)
    requires
        painted_all(blend, before, layers, after),
        forall|k: int| 0 <= k < layers.len() ==> transparent(#[trigger] layers[k]),
    ensures
        after == before,
    decreases layers.len(),
{
    if layers.len() > 0 {
        let middle = choose|middle: Seq<u8>|
            painted_all(blend, before, layers.drop_last(), middle) && #[trigger] painted(
                blend,
                middle,
                layers.last(),
                after,
            );
        assert forall|k: int| 0 <= k < layers.drop_last().len() implies transparent(
            #[trigger] layers.drop_last()[k],
        ) by {
            assert(layers.drop_last()[k] == layers[k]);
        }
        lemma_transparent_layers(blend, before, layers.drop_last(), middle);
        lemma_transparent_layer(blend, middle, layers.last(), after);
    }
}

/// The layers of two paint orders, one after the other, are the layers of
/// the two orders joined.
pub proof fn lemma_selection_add(
    names: Seq<Seq<char>>,
    first: Seq<Seq<char>>,
    second: Seq<Seq<char>>,
)
    ensures
        selection(names, first + second) == selection(names, first) + selection(names, second),
    decreases second.len(),
{
    if second.len() > 0 {
        lemma_selection_add(names, first, second.drop_last());
        assert((first + second).drop_last() =~= first + second.drop_last());
    }
}

/// Drawing one paint order over a document and another over the outcome is
/// drawing the two orders, joined, in one pass.
pub proof fn lemma_two_passes_are_one<F: Fn(Pixel, Pixel) -> Pixel>(
    blend: F,
    document: DocumentView,
    first: Seq<Seq<char>>,
    between: Seq<u8>,
    second: Seq<Seq<char>>,
    after: Seq<u8>,
)
    requires
        composited(blend, document, first, between),
        composited(blend, DocumentView { canvas: between, ..document }, second, after),
    ensures
        composited(blend, document, first + second, after),
{
    let names = document.names();
    let resumed = DocumentView { canvas: between, ..document };
    lemma_selection_add(names, first, second);
    let one = buffers(document.layers, selection(names, first));
    let two = buffers(document.layers, selection(names, second));
    assert(buffers(document.layers, selection(names, first + second)) =~= one + two);
    lemma_passes_join(blend, document.canvas, one, between, two, after);
}

/// Drawing two paint orders, joined, in one pass is drawing the first over
/// the document and the second over the outcome.
pub proof fn lemma_one_pass_is_two<F: Fn(Pixel, Pixel) -> Pixel>(
    blend: F,
    document: DocumentView,
    first: Seq<Seq<char>>,
    second: Seq<Seq<char>>,
    after: Seq<u8>,
)
    requires
        composited(blend, document, first + second, after),
    ensures
        exists|between: Seq<u8>| #[trigger]
            composited(blend, document, first, between) && composited(
                blend,
                DocumentView { canvas: between, ..document },
                second,
                after,
            ),
{
    let names = document.names();
    lemma_selection_add(names, first, second);
    let one = buffers(document.layers, selection(names, first));
    let two = buffers(document.layers, selection(names, second));
    assert(buffers(document.layers, selection(names, first + second)) =~= one + two);
    lemma_pass_splits(blend, document.canvas, one, two, after);
    let between = choose|between: Seq<u8>| #[trigger]
        painted_all(blend, document.canvas, one, between) && painted_all(
            blend,
            between,
            two,
            after,
        );
    let resumed = DocumentView { canvas: between, ..document };
    assert(composited(blend, document, first, between) && composited(
        blend,
        resumed,
        second,
        after,
    ));
}

/// Paints one layer over the canvas.
pub fn paint_layer<F: Fn(Pixel, Pixel) -> Pixel>(canvas: &mut Vec<u8>, layer: &Vec<u8>, blend: &F)
    requires
        forall|source: Pixel, below: Pixel| call_requires(*blend, (source, below)),
    ensures
        painted(*blend, old(canvas)@, layer@, final(canvas)@),
{
    if layer.len() != canvas.len() {
        return ;
    }
    let count = canvas.len() / 4;
    let mut p: usize = 0;
    while p < count
        invariant
            p <= count,
            count == old(canvas)@.len() / 4,
            4 * count <= canvas@.len() <= usize::MAX,
            canvas@.len() == old(canvas)@.len(),
            layer@.len() == canvas@.len(),
            forall|source: Pixel, below: Pixel| call_requires(*blend, (source, below)),
            forall|q: int|
                0 <= q < p ==> pixel_painted(
                    *blend,
                    pixel_at(layer@, q),
                    pixel_at(old(canvas)@, q),
                    #[trigger] pixel_at(canvas@, q),
                ),
            forall|i: int| 4 * p <= i < canvas@.len() ==> canvas@[i] == old(canvas)@[i],
        decreases count - p,
    {
        let at = 4 * p;
        let ghost earlier = canvas@;
        let source = Pixel {
            red: layer[at],
            green: layer[at + 1],
            blue: layer[at + 2],
            alpha: layer[at + 3],
        };
        if source.alpha != 0 {
            let below = Pixel {
                red: canvas[at],
                green: canvas[at + 1],
                blue: canvas[at + 2],
                alpha: canvas[at + 3],
            };
            let result = blend(source, below);
            canvas[at] = result.red;
            canvas[at + 1] = result.green;
            canvas[at + 2] = result.blue;
            canvas[at + 3] = result.alpha;
        }
        proof {
            assert forall|q: int| 0 <= q < p + 1 implies pixel_painted(
                *blend,
                pixel_at(layer@, q),
                pixel_at(old(canvas)@, q),
                #[trigger] pixel_at(canvas@, q),
            ) by {
                if q < p {
                    assert(pixel_at(canvas@, q) == pixel_at(earlier, q));
                }
            }
        }
        p = p + 1;
    }
}

/// The layers of a paint order that grew by one name.
proof fn lemma_selection_step(names: Seq<Seq<char>>, order: Seq<Seq<char>>, c: int)
    requires
        0 <= c < order.len(),
    ensures
        selection(names, order.take(c + 1)) == selection(names, order.take(c)) + named(
            names,
            order[c],
        ),
{
    assert(order.take(c + 1).drop_last() =~= order.take(c));
}

/// Finds the layers that a paint order paints, first to last: for each name
/// of the order in turn, every layer that bears exactly that name, in the
/// order of the document.
pub fn select_layers(document: &Document, order: &Vec<String>) -> (chosen: Vec<usize>)
    ensures
        places(chosen@) == selection(document@.names(), order.deep_view()),
        forall|k: int| 0 <= k < chosen@.len() ==> chosen@[k] < document@.layers.len(),
{
    let layers = document.layers();
    let ghost names = document@.names();
    let ghost wanted = order.deep_view();
    let mut chosen: Vec<usize> = Vec::new();
    let mut c: usize = 0;
    while c < order.len()
        invariant
            c <= order.len(),
            names == document@.names(),
            wanted == order.deep_view(),
            layers.deep_view() == document@.layers,
            places(chosen@) == selection(names, wanted.take(c as int)),
            forall|k: int| 0 <= k < chosen@.len() ==> chosen@[k] < layers@.len(),
        decreases order.len() - c,
    {
        let ghost start = chosen@;
        let mut i: usize = 0;
        while i < layers.len()
            invariant
                i <= layers.len(),
                c < order.len(),
                names == document@.names(),
                wanted == order.deep_view(),
                layers.deep_view() == document@.layers,
                places(chosen@) == places(start) + named_upto(names, wanted[c as int], i as int),
                forall|k: int| 0 <= k < chosen@.len() ==> chosen@[k] < layers@.len(),
            decreases layers.len() - i,
        {
            assert(names[i as int] == layers@[i as int].name@);
            if layers[i].name == order[c] {
                let ghost earlier = chosen@;
                chosen.push(i);
                assert(places(chosen@) =~= places(earlier).push(i as int));
            }
            i = i + 1;
        }
        proof {
            lemma_selection_step(names, wanted, c as int);
        }
        c = c + 1;
    }
    assert(wanted.take(order.len() as int) =~= wanted);
    chosen
}

/// Of the layers that a paint order would paint, finds those that are not as
/// long as the canvas: the compositor passes them over.
pub fn skipped_layers(document: &Document, order: &Vec<String>) -> (skipped: Vec<usize>)
    ensures
        places(skipped@) == unpaintable(
            document@.layers,
            document@.canvas.len(),
            selection(document@.names(), order.deep_view()),
        ),
        forall|k: int| 0 <= k < skipped@.len() ==> skipped@[k] < document@.layers.len(),
{
    let chosen = select_layers(document, order);
    let layers = document.layers();
    let length = document.canvas().len();
    let mut skipped: Vec<usize> = Vec::new();
    let mut k: usize = 0;
    while k < chosen.len()
        invariant
            k <= chosen.len(),
            length == document@.canvas.len(),
            layers.deep_view() == document@.layers,
            forall|n: int| 0 <= n < chosen@.len() ==> chosen@[n] < layers@.len(),
            places(skipped@) == unpaintable(
                document@.layers,
                length as nat,
                places(chosen@).take(k as int),
            ),
            forall|n: int| 0 <= n < skipped@.len() ==> skipped@[n] < layers@.len(),
        decreases chosen.len() - k,
    {
        let place = chosen[k];
        assert(places(chosen@).take(k as int + 1).drop_last() =~= places(chosen@).take(k as int));
        if layers[place].pixels.len() != length {
            skipped.push(place);
        }
        k = k + 1;
    }
    assert(places(chosen@).take(chosen.len() as int) =~= places(chosen@));
    skipped
}

/// Paints the layers of a paint order over a copy of the document's canvas
/// and gives the copy: name by name in the given order, and for each name
/// every layer that bears it, in the order of the document. A later layer
/// is painted over what the earlier ones left.
pub fn composite<F: Fn(Pixel, Pixel) -> Pixel>(
    document: &Document,
    order: &Vec<String>,
    blend: &F,
) -> (canvas: Vec<u8>)
    requires
        forall|source: Pixel, below: Pixel| call_requires(*blend, (source, below)),
    ensures
        composited(*blend, document@, order.deep_view(), canvas@),
        canvas@.len() == document@.canvas.len(),
{
    let chosen = select_layers(document, order);
    let layers = document.layers();
    let mut canvas = document.canvas().clone();
    let ghost all = buffers(document@.layers, places(chosen@));
    let mut k: usize = 0;
    while k < chosen.len()
        invariant
            k <= chosen.len(),
            layers.deep_view() == document@.layers,
            all == buffers(document@.layers, places(chosen@)),
            forall|n: int| 0 <= n < chosen@.len() ==> chosen@[n] < layers@.len(),
            forall|source: Pixel, below: Pixel| call_requires(*blend, (source, below)),
            painted_all(*blend, document@.canvas, all.take(k as int), canvas@),
            canvas@.len() == document@.canvas.len(),
        decreases chosen.len() - k,
    {
        let place = chosen[k];
        let ghost middle = canvas@;
        paint_layer(&mut canvas, &layers[place].pixels, blend);
        proof {
            let seen = all.take(k as int + 1);
            assert(seen.drop_last() =~= all.take(k as int));
            assert(painted(*blend, middle, seen.last(), canvas@));
        }
        k = k + 1;
    }
    assert(all.take(chosen.len() as int) =~= all);
    canvas
}

} // verus!

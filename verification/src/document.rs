//! A layered document as the compositor reads it: a canvas of RGBA bytes and
//! named layers, each with a buffer of its own.

use vstd::prelude::*;

verus! {

/// One pixel: red, green, blue and alpha, as they lie in a buffer.
#[derive(Clone, Copy, PartialEq, Eq, Structural, Debug)]
pub struct Pixel {
    pub red: u8,
    pub green: u8,
    pub blue: u8,
    pub alpha: u8,
}

/// A named layer. Its buffer holds four bytes for each pixel, row by row; it
/// can be painted only where it is as long as the canvas.
#[derive(Clone, Debug, PartialEq, Eq)]
pub struct Layer {
    pub name: String,
    pub pixels: Vec<u8>,
}

/// What a layer holds.
pub ghost struct LayerView {
    pub name: Seq<char>,
    pub pixels: Seq<u8>,
}

impl View for Layer {
    type V = LayerView;

    open spec fn view(&self) -> LayerView {
        LayerView { name: self.name@, pixels: self.pixels@ }
    }
}

impl DeepView for Layer {
    type V = LayerView;

    open spec fn deep_view(&self) -> LayerView {
        self@
    }
}

/// A document: the size of the canvas, the canvas itself and the layers, in
/// the order of the document. The canvas holds four bytes for each pixel.
#[derive(Debug, PartialEq, Eq)]
pub struct Document {
    width: u32,
    height: u32,
    canvas: Vec<u8>,
    layers: Vec<Layer>,
}

/// What a document holds.
pub ghost struct DocumentView {
    pub width: u32,
    pub height: u32,
    pub canvas: Seq<u8>,
    pub layers: Seq<LayerView>,
}

impl DocumentView {
    /// The names of the layers, in the order of the document.
    pub open spec fn names(self) -> Seq<Seq<char>> {
        self.layers.map_values(|layer: LayerView| layer.name)
    }

    /// Whether the canvas holds four bytes for each pixel.
    pub open spec fn wf(self) -> bool {
        self.canvas.len() == 4 * self.width * self.height
    }
}

impl View for Document {
    type V = DocumentView;

    closed spec fn view(&self) -> DocumentView {
        DocumentView {
            width: self.width,
            height: self.height,
            canvas: self.canvas@,
            layers: self.layers.deep_view(),
        }
    }
}

impl Document {
    #[verifier::type_invariant]
    spec fn canvas_fits(self) -> bool {
        self@.wf()
    }

    /// Makes a document, where the canvas holds four bytes for each pixel of
    /// the given size; there is no document for any other canvas.
    pub fn new(width: u32, height: u32, canvas: Vec<u8>, layers: Vec<Layer>) -> (document: Option<
        Document,
    >)
        ensures
            document is Some <==> canvas@.len() == 4 * width * height,
            document matches Some(d) ==> d@ == (DocumentView {
                width,
                height,
                canvas: canvas@,
                layers: layers.deep_view(),
            }),
    {
        assert(width * height <= 0xffff_ffff * 0xffff_ffff) by (nonlinear_arith)
            requires
                width <= 0xffff_ffff,
                height <= 0xffff_ffff,
        ;
        assert(4 * width * height == 4 * (width * height)) by (nonlinear_arith);
        let needed: u128 = 4 * (width as u128 * height as u128);
        if canvas.len() as u128 == needed {
            Some(Document { width, height, canvas, layers })
        } else {
            None
        }
    }

    /// The width of the canvas in pixels.
    pub fn width(&self) -> (width: u32)
        ensures
            width == self@.width,
            self@.wf(),
    {
        proof {
            use_type_invariant(self);
        }
        self.width
    }

    /// The height of the canvas in pixels.
    pub fn height(&self) -> (height: u32)
        ensures
            height == self@.height,
            self@.wf(),
    {
        proof {
            use_type_invariant(self);
        }
        self.height
    }

    /// The canvas, which holds four bytes for each pixel.
    pub fn canvas(&self) -> (canvas: &Vec<u8>)
        ensures
            canvas@ == self@.canvas,
            self@.wf(),
    {
        proof {
            use_type_invariant(self);
        }
        &self.canvas
    }

    /// The layers, in the order of the document.
    pub fn layers(&self) -> (layers: &Vec<Layer>)
        ensures
            layers.deep_view() == self@.layers,
    {
        &self.layers
    }
}

} // verus!

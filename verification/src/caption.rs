//! Texts with figures in them.
//!
//! A caption fixes the words and the figures of a text and where they stand. A figure is given by
//! the quantities that it is worked out from; putting it into digits takes floating-point
//! arithmetic and is left to whoever shows the caption.

use crate::time::Duration;
use vstd::prelude::*;

verus! {

/// A quantity that is shown with a fixed number of decimals.
#[derive(Clone, Copy, Debug, PartialEq, Eq, Structural)]
pub enum Figure {
    /// A share in percent: a hundred times the double-precision number with these bits.
    Share { double_bits: u64 },
    /// How many percent `used` is of `total`.
    Percent { used: u64, total: u64 },
    /// A number of bytes in GiB.
    Gibibytes { bytes: u64 },
    /// A span in seconds, in double precision.
    Seconds { span: Duration },
    /// A span in seconds, in single precision.
    CoarseSeconds { span: Duration },
}

/// A stretch of a caption.
#[derive(Debug, PartialEq, Eq)]
pub enum Piece {
    Text(String),
    /// A figure with `decimals` decimals, right-aligned with spaces to `width` characters.
    Figure { figure: Figure, decimals: usize, width: usize },
}

/// A piece by the characters of its text.
pub enum PieceView {
    Text(Seq<char>),
    Figure { figure: Figure, decimals: usize, width: usize },
}

impl View for Piece {
    type V = PieceView;

    open spec fn view(&self) -> PieceView {
        match *self {
            Piece::Text(text) => PieceView::Text(text@),
            Piece::Figure { figure, decimals, width } => PieceView::Figure {
                figure,
                decimals,
                width,
            },
        }
    }
}

/// A text with figures in it.
#[derive(Debug, PartialEq, Eq)]
pub struct Caption {
    pub pieces: Vec<Piece>,
}

impl View for Caption {
    type V = Seq<PieceView>;

    open spec fn view(&self) -> Seq<PieceView> {
        self.pieces@.map_values(|piece: Piece| piece@)
    }
}

/// The caption that is one plain text.
pub open spec fn plain(text: Seq<char>) -> Seq<PieceView> {
    seq![PieceView::Text(text)]
}

/// The caption that is one figure.
pub open spec fn lone_figure(figure: Figure, decimals: usize, width: usize) -> Seq<PieceView> {
    seq![PieceView::Figure { figure, decimals, width }]
}

impl Caption {
    pub fn empty() -> (caption: Caption)
        ensures
            caption@ == Seq::<PieceView>::empty(),
    {
        let caption = Caption { pieces: Vec::new() };
        assert(caption@ =~= Seq::<PieceView>::empty());
        caption
    }

    /// The caption that is one plain text.
    pub fn of_text(text: String) -> (caption: Caption)
        ensures
            caption@ == plain(text@),
    {
        let mut pieces: Vec<Piece> = Vec::new();
        pieces.push(Piece::Text(text));
        let caption = Caption { pieces };
        assert(caption@ =~= plain(text@));
        caption
    }

    /// The caption with a text behind it.
    pub fn with_text(self, text: &str) -> (caption: Caption)
        ensures
            caption@ == self@ + plain(text@),
    {
        let mut pieces: Vec<Piece> = self.pieces;
        pieces.push(Piece::Text(text.to_owned()));
        let caption = Caption { pieces };
        assert(caption@ =~= self@ + plain(text@));
        caption
    }

    /// The caption with a figure behind it.
    pub fn with_figure(self, figure: Figure, decimals: usize, width: usize) -> (caption: Caption)
        ensures
            caption@ == self@ + lone_figure(figure, decimals, width),
    {
        let mut pieces: Vec<Piece> = self.pieces;
        pieces.push(Piece::Figure { figure, decimals, width });
        let caption = Caption { pieces };
        assert(caption@ =~= self@ + lone_figure(figure, decimals, width));
        caption
    }

    /// The caption with another one behind it.
    pub fn with_caption(self, other: &Caption) -> (caption: Caption)
        ensures
            caption@ == self@ + other@,
    {
        let mut pieces: Vec<Piece> = self.pieces;
        let mut others: Vec<Piece> = other.copy().pieces;
        let ghost copied = Caption { pieces: others };
        pieces.append(&mut others);
        let caption = Caption { pieces };
        assert(caption@ =~= self@ + copied@);
        caption
    }

    /// A copy of the caption.
    pub fn copy(&self) -> (caption: Caption)
        ensures
            caption@ == self@,
    {
        let mut pieces: Vec<Piece> = Vec::new();
        let mut i: usize = 0;
        while i < self.pieces.len()
            invariant
                i <= self.pieces@.len(),
                pieces@.len() == i,
                forall|j: int| 0 <= j < i ==> (#[trigger] pieces@[j])@ == self.pieces@[j]@,
            decreases self.pieces@.len() - i,
        {
            let piece = match &self.pieces[i] {
                Piece::Text(text) => Piece::Text(text.clone()),
                Piece::Figure { figure, decimals, width } => Piece::Figure {
                    figure: *figure,
                    decimals: *decimals,
                    width: *width,
                },
            };
            pieces.push(piece);
            i += 1;
        }
        let caption = Caption { pieces };
        assert(caption@ =~= self@);
        caption
    }
}

/// A caption is known by its pieces, in order: a text by its characters, a figure by what it is
/// worked out from and how it is shown.
pub proof fn law_caption_is_its_pieces(caption: Caption, index: int)
    requires
        0 <= index < caption.pieces@.len(),
    ensures
        caption@.len() == caption.pieces@.len(),
        caption.pieces@[index] matches Piece::Text(text) ==> caption@[index] == PieceView::Text(text@),
        caption.pieces@[index] matches Piece::Figure { figure, decimals, width } ==> caption@[index]
            == (PieceView::Figure { figure, decimals, width }),
{
}

/// A plain text is one piece, and so is a lone figure.
pub proof fn law_plain_text_is_one_piece(
    text: Seq<char>,
    figure: Figure,
    decimals: usize,
    width: usize,
)
    ensures
        plain(text).len() == 1,
        plain(text)[0] == PieceView::Text(text),
        lone_figure(figure, decimals, width).len() == 1,
        lone_figure(figure, decimals, width)[0] == (PieceView::Figure { figure, decimals, width }),
{
}

} // verus!

//! Output in pieces, for a host that writes the numbers.

use vstd::prelude::*;

verus! {

/// One piece of output. Text is written as it stands. A number is
/// handed out for the host to write, either as the numeral that a literal
/// was written as, which the host first rounds to binary64, or as the bit
/// pattern of a binary64 value.
#[derive(Debug)]
pub enum Fragment {
    Text(String),
    Numeral(String),
    Number(u64),
}

/// A piece of output as a mathematical value.
pub ghost enum Piece {
    Text(Seq<char>),
    Numeral(Seq<char>),
    Number(u64),
}

impl View for Fragment {
    type V = Piece;

    open spec fn view(&self) -> Piece {
        match *self {
            Fragment::Text(text) => Piece::Text(text@),
            Fragment::Numeral(numeral) => Piece::Numeral(numeral@),
            Fragment::Number(bits) => Piece::Number(bits),
        }
    }
}

/// The pieces as mathematical values.
pub open spec fn pieces(fragments: Seq<Fragment>) -> Seq<Piece> {
    Seq::new(fragments.len(), |i: int| fragments[i]@)
}

} // verus!

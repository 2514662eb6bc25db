use std::sync::Arc;

use vstd::prelude::*;

use crate::datatypes::{Coords, MediaPosition};
use crate::grid::GridCell;
use crate::styles::UseStyles;

verus! {

#[verifier::external_type_specification]
#[verifier::external_body]
pub struct ExMime(mime::Mime);

/// Relies on the derived `Clone` of `mime::Mime`: a field by field copy.
pub assume_specification[ <mime::Mime as Clone>::clone ](m: &mime::Mime) -> (r: mime::Mime)
    ensures
        r == *m,
;

/// The bytes of an image, and the cell it was first placed at.
#[derive(PartialEq, Eq, Hash, Debug)]
pub struct ImageData {
    pub data: Vec<u8>,
    pub coords: Coords,
}

/// What a cell holds.
#[derive(Clone, PartialEq, Debug)]
pub enum CellData {
    Empty,
    Char(char),
    /// A base character followed by combining marks.
    Grapheme(String),
    /// A cell covered by the multi-cell item whose top left cell is given.
    Extension(Coords),
    /// An image; its bytes are shared by every copy of the cell.
    Image { data: Arc<ImageData>, mime: mime::Mime, pos: MediaPosition, width: u32, height: u32 },
}

#[derive(Clone, PartialEq, Debug)]
pub struct CharCell {
    pub styles: UseStyles,
    pub content: CellData,
}

/// Relies on `String::push`: it appends one character.
#[verifier::external_body]
fn push_char(s: &mut String, c: char)
    ensures
        final(s)@ == old(s)@.push(c),
{
    s.push(c)
}

pub(crate) fn string_of(c: char) -> (r: String)
    ensures
        r@ == seq![c],
{
    let mut s = String::new();
    push_char(&mut s, c);
    proof {
        assert(s@ =~= seq![c]);
    }
    s
}

/// The text a cell shows for debugging: its characters, `IMG` for an image,
/// `EXT` for an extension, nothing when empty.
pub open spec fn repr_spec(content: CellData) -> Seq<char> {
    match content {
        CellData::Char(c) => seq![c],
        CellData::Grapheme(s) => s@,
        CellData::Image { .. } => seq!['I', 'M', 'G'],
        CellData::Empty => Seq::empty(),
        CellData::Extension(_) => seq!['E', 'X', 'T'],
    }
}

/// The text a cell contributes to the screen's contents.
pub open spec fn text_spec(content: CellData) -> Seq<char> {
    match content {
        CellData::Char(c) => seq![c],
        CellData::Grapheme(s) => s@,
        _ => Seq::empty(),
    }
}

impl CellData {
    pub open spec fn is_extendable_spec(self) -> bool {
        self is Char || self is Grapheme
    }
}

impl CharCell {
    pub open spec fn blank_cell() -> CharCell {
        CharCell { styles: UseStyles::Default, content: CellData::Empty }
    }

    /// `self` is what extending `before` by the mark `c` with `styles` gives.
    pub open spec fn extends(self, before: CharCell, c: char, styles: UseStyles) -> bool {
        &&& self.styles == styles
        &&& match before.content {
            CellData::Char(b) => self.content matches CellData::Grapheme(s) && s@ == seq![b, c],
            CellData::Grapheme(g) => self.content matches CellData::Grapheme(s) && s@ == g@.push(c),
            _ => self.content == CellData::Char(c),
        }
    }

    pub fn empty() -> (r: CharCell)
        ensures
            r == CharCell::blank_cell(),
    {
        CharCell { styles: UseStyles::Default, content: CellData::Empty }
    }

    pub fn is_extension(&self) -> (r: bool)
        ensures
            r == self.content is Extension,
    {
        if let CellData::Extension(_) = self.content {
            true
        } else {
            false
        }
    }

    pub fn repr(&self) -> (r: String)
        ensures
            r@ == repr_spec(self.content),
    {
        match &self.content {
            CellData::Char(c) => string_of(*c),
            CellData::Grapheme(s) => s.clone(),
            CellData::Image { .. } => {
                proof {
                    reveal_strlit("IMG");
                }
                "IMG".to_owned()
            },
            CellData::Empty => String::new(),
            CellData::Extension(_) => {
                proof {
                    reveal_strlit("EXT");
                }
                "EXT".to_owned()
            },
        }
    }

    pub fn to_string(&self) -> (r: String)
        ensures
            r@ == text_spec(self.content),
    {
        match &self.content {
            CellData::Char(c) => string_of(*c),
            CellData::Grapheme(s) => s.clone(),
            _ => String::new(),
        }
    }

    /// Replace the content and the styles.
    pub fn write(&mut self, data: CellData, styles: UseStyles)
        ensures
            *final(self) == (CharCell { styles, content: data }),
    {
        self.content = data;
        self.styles = styles;
    }

    /// Add a combining mark: a character becomes a grapheme, a grapheme grows
    /// by `c`, and any other content is replaced by the plain character `c`.
    pub fn extend(&mut self, c: char, styles: UseStyles)
        ensures
            final(self).extends(*old(self), c, styles),
    {
        let mut content = CellData::Empty;
        std::mem::swap(&mut self.content, &mut content);
        let next = match content {
            CellData::Char(b) => {
                let mut s = string_of(b);
                push_char(&mut s, c);
                assert(s@ =~= seq![b, c]);
                CellData::Grapheme(s)
            },
            CellData::Grapheme(s) => {
                let mut s = s;
                push_char(&mut s, c);
                CellData::Grapheme(s)
            },
            _ => CellData::Char(c),
        };
        self.content = next;
        self.styles = styles;
    }

    pub fn is_extendable(&self) -> (r: bool)
        ensures
            r == self.content.is_extendable_spec(),
    {
        match self.content {
            CellData::Char(_) | CellData::Grapheme(_) => true,
            _ => false,
        }
    }

    pub fn is_extension_of(&self) -> (r: Option<Coords>)
        ensures
            self.content matches CellData::Extension(a) ==> r == Some(a),
            !(self.content is Extension) ==> r.is_none(),
    {
        match self.content {
            CellData::Extension(a) => Some(a),
            _ => None,
        }
    }
}

impl Default for CharCell {
    fn default() -> (r: CharCell)
        ensures
            r == CharCell::blank_cell(),
    {
        CharCell::empty()
    }
}

impl GridCell for CharCell {
    open spec fn blank_spec() -> CharCell {
        CharCell::blank_cell()
    }

    fn blank() -> (r: CharCell) {
        CharCell::empty()
    }
}

} // verus!

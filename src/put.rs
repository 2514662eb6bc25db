use vstd::prelude::*;

use crate::char_grid::CharData;
use crate::datatypes::{Coords, MediaPosition, Movement};
use crate::window::{moved, wrote, Window};

verus! {

/// A command that writes once at the cursor.
pub struct Put(pub Option<CharData>);

/// A command that writes once at a given cell of the view and then puts the
/// cursor back.
pub struct PutAt(pub Option<CharData>, pub Coords);

/// The view coordinates of the grid cell `c` in a view whose top left cell
/// is `(left, top)`, stopping at the view's edge.
pub open spec fn back_to(c: Coords, left: u32, top: u32) -> Coords {
    Coords {
        x: if c.x >= left { (c.x - left) as u32 } else { 0 },
        y: if c.y >= top { (c.y - top) as u32 } else { 0 },
    }
}

impl Put {
    pub fn new_char(ch: char) -> (r: Put)
        ensures
            r.0 matches Some(CharData::Char(c)) && c == ch,
    {
        Put(Some(CharData::Char(ch)))
    }

    pub fn new_extension(ch: char) -> (r: Put)
        ensures
            r.0 matches Some(CharData::ExtensionChar(c)) && c == ch,
    {
        Put(Some(CharData::ExtensionChar(ch)))
    }

    pub fn new_image(data: Vec<u8>, mime: mime::Mime, pos: MediaPosition, w: u32, h: u32) -> (r: Put)
        ensures
            r.0 == Some(CharData::Image { data, mime, pos, width: w, height: h }),
    {
        Put(Some(CharData::Image { data, mime, pos, width: w, height: h }))
    }

    /// Write the payload into `window`, the first time only.
    pub fn apply(&mut self, window: &mut Window)
        requires
            old(window).wf(),
        ensures
            final(self).0.is_none(),
            final(window).wf(),
            old(self).0 matches Some(d) ==> wrote(*old(window), d, *final(window)),
            old(self).0.is_none() ==> *final(window) == *old(window),
    {
        if let Some(data) = self.0.take() {
            window.write(data);
        }
    }

    /// A short description: the character, or `PUT` for other payloads.
    pub fn repr(&self) -> (r: String)
        ensures
            self.0 matches Some(CharData::Char(c)) ==> r@ == seq![c],
            self.0 matches Some(CharData::ExtensionChar(c)) ==> r@ == seq![c],
            !(self.0 matches Some(CharData::Char(_))) && !(self.0 matches Some(
                CharData::ExtensionChar(_),
            )) ==> r@ == seq!['P', 'U', 'T'],
    {
        match &self.0 {
            Some(CharData::Char(c)) | Some(CharData::ExtensionChar(c)) => crate::cell::string_of(*c),
            _ => {
                proof {
                    reveal_strlit("PUT");
                }
                "PUT".to_owned()
            },
        }
    }
}

impl PutAt {
    pub fn new_image(
        data: Vec<u8>,
        mime: mime::Mime,
        pos: MediaPosition,
        w: u32,
        h: u32,
        at: Coords,
    ) -> (r: PutAt)
        ensures
            r.0 == Some(CharData::Image { data, mime, pos, width: w, height: h }),
            r.1 == at,
    {
        PutAt(Some(CharData::Image { data, mime, pos, width: w, height: h }), at)
    }

    /// Move the cursor to the view's cell `self.1`, write the payload (the
    /// first time only), and move the cursor back to where it was.
    pub fn apply(&mut self, window: &mut Window)
        requires
            old(window).wf(),
        ensures
            final(self).0.is_none(),
            final(self).1 == old(self).1,
            final(window).wf(),
            old(self).0 matches Some(d) ==> exists|w1: Window, w2: Window|
                #![trigger moved(*old(window), Movement::Position(old(self).1), w1), wrote(w1, d, w2)]
                moved(*old(window), Movement::Position(old(self).1), w1) && wrote(w1, d, w2)
                    && moved(
                    w2,
                    Movement::Position(
                        back_to(
                            old(window).cursor_state().coords,
                            w2.region().left,
                            w2.region().top,
                        ),
                    ),
                    *final(window),
                ),
            old(self).0.is_none() ==> *final(window) == *old(window),
    {
        if let Some(data) = self.0.take() {
            let saved = window.cursor_position();
            window.move_cursor(Movement::Position(self.1));
            let ghost w1 = *window;
            window.write(data);
            let ghost w2 = *window;
            let view = window.view_bounds();
            let back = Coords {
                x: if saved.x >= view.left { saved.x - view.left } else { 0 },
                y: if saved.y >= view.top { saved.y - view.top } else { 0 },
            };
            window.move_cursor(Movement::Position(back));
            assert(moved(*old(window), Movement::Position(old(self).1), w1));
        }
    }

    pub fn repr(&self) -> (r: String)
        ensures
            r@ == seq!['P', 'U', 'T', ' ', 'A', 'T'],
    {
        proof {
            reveal_strlit("PUT AT");
        }
        "PUT AT".to_owned()
    }
}

} // verus!

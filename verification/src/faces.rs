//! The faces in their slots: which is read, which is missing, and the first that
//! draws a character.

use ab_glyph::{Font, FontVec};
use vstd::prelude::*;

verus! {

/// A font that was read.
#[verifier::external_type_specification]
#[verifier::external_body]
pub struct ExFontVec(ab_glyph::FontVec);

/// What a font holds: the glyph of every character that it draws.
pub uninterp spec fn glyphs(font: FontVec) -> Map<char, u16>;

/// What the bytes of a file hold as a font, where they are one.
pub uninterp spec fn font_in(bytes: Seq<u8>) -> Option<Map<char, u16>>;

/// Reads a font by `ab_glyph::FontVec::try_from_vec`. Whether the bytes are one, and
/// what it then draws, depends on them alone. Which bytes are a font is not said.
#[verifier::external_body]
fn read_font(bytes: Vec<u8>) -> (r: Option<FontVec>)
    ensures
        match r {
            Some(font) => font_in(bytes@) == Some(glyphs(font)),
            None => font_in(bytes@) is None,
        },
{
    FontVec::try_from_vec(bytes).ok()
}

/// The glyph of a character by `ab_glyph::Font::glyph_id`, which is the number of the
/// glyph, and nought for a character that the font does not draw.
#[verifier::external_body]
fn glyph_of(font: &FontVec, ch: char) -> (r: u16)
    ensures
        r == 0 <==> !glyphs(*font).contains_key(ch),
        r != 0 ==> glyphs(*font)[ch] == r,
{
    font.glyph_id(ch).0
}

/// A face in its slot.
pub enum Face {
    /// Not asked for yet.
    Pending,
    Loaded(FontVec),
    /// Its file is not there, or is not a font.
    Absent,
}

/// What is known of a face and a character.
#[derive(Debug, Clone, Copy, PartialEq, Eq, Structural)]
pub enum Cover {
    /// The face is still to be read.
    Unknown,
    Draws,
    Lacks,
}

/// What looking for a character came to.
#[derive(Debug, Clone, Copy, PartialEq, Eq, Structural)]
pub enum Found {
    /// This slot draws it.
    At(usize),
    /// This slot is to be read, and the character looked for again.
    Load(usize),
    /// No face draws it.
    Nowhere,
}

impl Face {
    pub open spec fn covers(&self, ch: char) -> Cover {
        match *self {
            Face::Pending => Cover::Unknown,
            Face::Loaded(font) => if glyphs(font).contains_key(ch) {
                Cover::Draws
            } else {
                Cover::Lacks
            },
            Face::Absent => Cover::Lacks,
        }
    }

    /// Whether a face draws a character.
    pub fn cover(&self, ch: char) -> (r: Cover)
        ensures
            r == self.covers(ch),
    {
        match self {
            Face::Pending => Cover::Unknown,
            Face::Loaded(font) => drawn(glyph_of(font, ch)),
            Face::Absent => Cover::Lacks,
        }
    }

    /// The face of a file: what was read of it, or nothing.
    pub fn of(bytes: Option<Vec<u8>>) -> (r: Face)
        ensures
            match bytes {
                Some(bytes) => match font_in(bytes@) {
                    Some(map) => r matches Face::Loaded(font) && glyphs(font) == map,
                    None => r is Absent,
                },
                None => r is Absent,
            },
    {
        match bytes {
            Some(bytes) => match read_font(bytes) {
                Some(font) => Face::Loaded(font),
                None => Face::Absent,
            },
            None => Face::Absent,
        }
    }
}

/// What a glyph's number says of its character.
pub fn drawn(glyph: u16) -> (r: Cover)
    ensures
        r == (if glyph != 0 {
            Cover::Draws
        } else {
            Cover::Lacks
        }),
{
    if glyph != 0 {
        Cover::Draws
    } else {
        Cover::Lacks
    }
}

/// The first slot of an order, from its `from`th on, that draws a character or is
/// still to be read. A slot that there is not is passed over.
pub open spec fn found_from(
    faces: Seq<Face>,
    order: Seq<usize>,
    ch: char,
    from: int,
) -> Found
    decreases order.len() - from,
{
    if from < 0 || from >= order.len() {
        Found::Nowhere
    } else if order[from] >= faces.len() {
        found_from(faces, order, ch, from + 1)
    } else {
        match faces[order[from] as int].covers(ch) {
            Cover::Draws => Found::At(order[from]),
            Cover::Unknown => Found::Load(order[from]),
            Cover::Lacks => found_from(faces, order, ch, from + 1),
        }
    }
}

/// Every face there is, by its slot.
pub struct Shelf {
    pub faces: Vec<Face>,
}

impl Shelf {
    /// So many slots, none of them read.
    pub fn new(slots: usize) -> (r: Shelf)
        ensures
            r.faces@.len() == slots,
            forall|i: int| 0 <= i < slots ==> (#[trigger] r.faces@[i]) is Pending,
    {
        let mut faces: Vec<Face> = Vec::new();
        let mut i: usize = 0;
        while i < slots
            invariant
                i <= slots,
                faces@.len() == i,
                forall|k: int| 0 <= k < i ==> (#[trigger] faces@[k]) is Pending,
            decreases slots - i,
        {
            faces.push(Face::Pending);
            i = i + 1;
        }
        Shelf { faces }
    }

    /// The slot that draws a character, in an order. A face is read only once the
    /// search comes to it.
    pub fn resolve(&self, order: &Vec<usize>, ch: char) -> (r: Found)
        ensures
            r == found_from(self.faces@, order@, ch, 0),
    {
        let mut i: usize = 0;
        while i < order.len()
            invariant
                i <= order.len(),
                found_from(self.faces@, order@, ch, 0) == found_from(
                    self.faces@,
                    order@,
                    ch,
                    i as int,
                ),
            decreases order.len() - i,
        {
            let at: usize = order[i];
            if at < self.faces.len() {
                match self.faces[at].cover(ch) {
                    Cover::Draws => {
                        return Found::At(at);
                    },
                    Cover::Unknown => {
                        return Found::Load(at);
                    },
                    Cover::Lacks => {},
                }
            }
            i = i + 1;
        }
        Found::Nowhere
    }

    /// Put the face of a file in its slot. One that was read stays.
    pub fn load(&mut self, slot: usize, bytes: Option<Vec<u8>>)
        requires
            slot < old(self).faces@.len(),
        ensures
            final(self).faces@.len() == old(self).faces@.len(),
            forall|i: int|
                0 <= i < old(self).faces@.len() && i != slot ==> (#[trigger] final(self).faces@[i])
                    == old(self).faces@[i],
            !(old(self).faces@[slot as int] is Pending) ==> final(self).faces@[slot as int] == old(
                self,
            ).faces@[slot as int],
            old(self).faces@[slot as int] is Pending ==> match bytes {
                Some(bytes) => match font_in(bytes@) {
                    Some(map) => final(self).faces@[slot as int] matches Face::Loaded(font)
                        && glyphs(font) == map,
                    None => final(self).faces@[slot as int] is Absent,
                },
                None => final(self).faces@[slot as int] is Absent,
            },
    {
        match self.faces[slot] {
            Face::Pending => {},
            _ => {
                return ;
            },
        }
        self.faces.set(slot, Face::of(bytes));
    }

    /// Slots that now hold another file are to be read again.
    pub fn forget(&mut self, slots: &Vec<usize>)
        ensures
            final(self).faces@.len() == old(self).faces@.len(),
            forall|i: int|
                0 <= i < old(self).faces@.len() ==> (#[trigger] final(self).faces@[i]) == (
                if slots@.contains(i as usize) {
                    Face::Pending
                } else {
                    old(self).faces@[i]
                }),
    {
        let mut k: usize = 0;
        while k < slots.len()
            invariant
                k <= slots.len(),
                self.faces@.len() == old(self).faces@.len(),
                forall|i: int|
                    0 <= i < old(self).faces@.len() ==> (#[trigger] self.faces@[i]) == (
                    if slots@.take(k as int).contains(i as usize) {
                        Face::Pending
                    } else {
                        old(self).faces@[i]
                    }),
            decreases slots.len() - k,
        {
            let slot: usize = slots[k];
            let ghost before = self.faces@;
            if slot < self.faces.len() {
                self.faces.set(slot, Face::Pending);
            }
            proof {
                let less = slots@.take(k as int);
                let more = slots@.take(k + 1);
                assert(more =~= less.push(slot));
                assert forall|i: int| 0 <= i < old(self).faces@.len() implies (
                #[trigger] self.faces@[i]) == (if more.contains(i as usize) {
                    Face::Pending
                } else {
                    old(self).faces@[i]
                }) by {
                    if i == slot {
                        assert(more[k as int] == i as usize);
                    } else if less.contains(i as usize) {
                        let j = choose|j: int| 0 <= j < less.len() && less[j] == i as usize;
                        assert(more[j] == i as usize);
                    } else if more.contains(i as usize) {
                        let j = choose|j: int| 0 <= j < more.len() && more[j] == i as usize;
                        assert(j == k);
                    }
                }
            }
            k = k + 1;
        }
        assert(slots@.take(k as int) =~= slots@);
    }
}

/// A character is drawn from a slot of its order that draws it, and every face that
/// comes before is known not to.
pub proof fn the_first_face_that_draws_it_is_taken(
    faces: Seq<Face>,
    order: Seq<usize>,
    ch: char,
    from: int,
)
    requires
        0 <= from <= order.len(),
    ensures
        found_from(faces, order, ch, from) matches Found::At(slot) ==> exists|i: int|
            {
                &&& from <= i < order.len()
                &&& #[trigger] order[i] == slot
                &&& slot < faces.len()
                &&& faces[slot as int].covers(ch) == Cover::Draws
                &&& forall|k: int|
                    from <= k < i && (#[trigger] order[k]) < faces.len()
                        ==> faces[order[k] as int].covers(ch) == Cover::Lacks
            },
    decreases order.len() - from,
{
    if from < order.len() {
        the_first_face_that_draws_it_is_taken(faces, order, ch, from + 1);
        if order[from] < faces.len() && faces[order[from] as int].covers(ch) == Cover::Draws {
            assert(order[from] == order[from]);
        } else if found_from(faces, order, ch, from + 1) is At {
            let slot = found_from(faces, order, ch, from + 1)->At_0;
            let i = choose|i: int|
                {
                    &&& from + 1 <= i < order.len()
                    &&& #[trigger] order[i] == slot
                    &&& slot < faces.len()
                    &&& faces[slot as int].covers(ch) == Cover::Draws
                    &&& forall|k: int|
                        from + 1 <= k < i && (#[trigger] order[k]) < faces.len()
                            ==> faces[order[k] as int].covers(ch) == Cover::Lacks
                };
            if found_from(faces, order, ch, from) is At {
                assert(order[i] == slot);
                assert forall|k: int|
                    from <= k < i && (#[trigger] order[k]) < faces.len() implies faces[order[k] as int].covers(
                ch) == Cover::Lacks by {}
            }
        }
    }
}

} // verus!

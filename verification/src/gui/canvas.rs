//! What a frame is made of: faces to measure text in, tones to name colours
//! by, and the operations that draw.

use crate::text::{shown, utf8, Text};
use vstd::prelude::*;

verus! {

/// A typeface at one size: how far each byte moves the pen, and how tall a
/// line is.
pub struct Face {
    pub advance: [u8; 256],
    pub line_height: u16,
}

impl Face {
    /// How wide a string is.
    pub open spec fn width(self, bytes: Seq<u8>) -> nat
        decreases bytes.len(),
    {
        if bytes.len() == 0 {
            0
        } else {
            self.width(bytes.drop_last()) + self.advance@[bytes.last() as int] as nat
        }
    }

    /// How wide a string is.
    pub fn width_of(&self, s: &str) -> (r: u32)
        requires
            utf8(s).len() <= MAX_TEXT,
        ensures
            r == self.width(utf8(s)),
            r <= 255 * MAX_TEXT,
            r <= 255 * utf8(s).len(),
    {
        let bytes: &[u8] = s.as_bytes();
        let mut total: u32 = 0;
        let mut i: usize = 0;
        assert(bytes@.take(0) =~= Seq::<u8>::empty());
        while i < bytes.len()
            invariant
                i <= bytes@.len() <= MAX_TEXT,
                total == self.width(bytes@.take(i as int)),
                total <= 255 * i,
            decreases bytes@.len() - i,
        {
            proof {
                assert(bytes@.take(i + 1).drop_last() =~= bytes@.take(i as int));
            }
            total = total + self.advance[bytes[i] as usize] as u32;
            i += 1;
        }
        assert(bytes@.take(i as int) =~= bytes@);
        total
    }

    /// How wide what was written is.
    pub fn width_of_text<const N: usize>(&self, text: &Text<N>) -> (r: u32)
        requires
            N <= 1000,
        ensures
            r == self.width(printed(text@)),
            r <= 255_000,
    {
        let _ = text.len();
        proof {
            printed_is_no_longer(text@);
        }
        self.width_of(text.as_str())
    }
}

/// The longest string that is measured, in bytes.
pub const MAX_TEXT: u32 = 1_000_000;

/// A string is no wider than its bytes at their widest.
pub proof fn width_is_bounded(face: Face, bytes: Seq<u8>)
    ensures
        face.width(bytes) <= 255 * bytes.len(),
    decreases bytes.len(),
{
    if bytes.len() > 0 {
        width_is_bounded(face, bytes.drop_last());
    }
}

/// Widths add up: a string is as wide as its two halves.
pub proof fn widths_add_up(face: Face, a: Seq<u8>, b: Seq<u8>)
    ensures
        face.width(a + b) == face.width(a) + face.width(b),
    decreases b.len(),
{
    if b.len() == 0 {
        assert(a + b =~= a);
    } else {
        assert((a + b).drop_last() =~= a + b.drop_last());
        widths_add_up(face, a, b.drop_last());
    }
}

/// Which of the five faces.
#[derive(Debug, Clone, Copy, PartialEq, Eq, Structural)]
pub enum FaceId {
    Body,
    Heading,
    Title,
    Readout,
    ReadoutBig,
}

/// The five faces the interface is set in.
pub struct Typeface {
    pub body: Face,
    pub heading: Face,
    pub title: Face,
    pub readout: Face,
    pub readout_big: Face,
}

impl Typeface {
    /// The face of a name.
    pub open spec fn of(self, id: FaceId) -> Face {
        match id {
            FaceId::Body => self.body,
            FaceId::Heading => self.heading,
            FaceId::Title => self.title,
            FaceId::Readout => self.readout,
            FaceId::ReadoutBig => self.readout_big,
        }
    }

    /// The face of a name.
    pub fn face(&self, id: FaceId) -> (r: &Face)
        ensures
            *r == self.of(id),
    {
        match id {
            FaceId::Body => &self.body,
            FaceId::Heading => &self.heading,
            FaceId::Title => &self.title,
            FaceId::Readout => &self.readout,
            FaceId::ReadoutBig => &self.readout_big,
        }
    }
}

/// What a colour is for. The theme says which colour that is.
#[derive(Debug, Clone, Copy, PartialEq, Eq, Structural)]
pub enum Tone {
    Background,
    Panel,
    Title,
    Text,
    Muted,
    Accent,
    Button,
    ButtonEdge,
    Hover,
    Divider,
    Shadow,
    Danger,
    Warn,
    Glow,
    Track,
    HeaderFrom,
    HeaderTo,
}

/// A colour to draw in.
#[derive(Debug, Clone, Copy, PartialEq, Eq, Structural)]
pub enum Ink {
    /// A tone as it is.
    Flat(Tone),
    /// Between two tones, in thousandths of the way.
    Mix { from: Tone, to: Tone, permille: u32 },
    /// Between two tones, in 255ths of the way.
    Blend { from: Tone, to: Tone, part: u8 },
}

/// One thing to draw. Text is `S`: bytes to draw where it is executed, a
/// sequence of bytes where it is spoken of.
pub enum Op<S> {
    /// A filled rectangle.
    Fill { x: u32, y: u32, w: u32, h: u32, ink: Ink },
    /// A rectangle shaded from left to right.
    Gradient { x: u32, y: u32, w: u32, h: u32, from: Tone, to: Tone },
    /// A filled circle.
    Disc { x: u32, y: u32, r: u32, ink: Ink },
    /// A rectangle with rounded corners.
    Rounded { x: u32, y: u32, w: u32, h: u32, r: u32, ink: Ink },
    /// Its outline.
    RoundedOutline { x: u32, y: u32, w: u32, h: u32, r: u32, ink: Ink },
    /// Text starting at a point.
    Text { face: FaceId, x: u32, y: u32, text: S, ink: Ink },
    /// Text centred in a span.
    Centred { face: FaceId, x: u32, w: u32, y: u32, text: S, ink: Ink },
    /// Text ending at a point.
    Right { face: FaceId, right: u32, y: u32, text: S, ink: Ink },
    /// Text with a halo.
    Glow { face: FaceId, x: u32, y: u32, text: S, ink: Ink, halo: Tone, spread: u32 },
    /// A labelled pill.
    Chip { face: FaceId, x: u32, y: u32, w: u32, h: u32, text: S, ink: Ink, label: Ink },
    /// A glowing underline.
    Underline { x: u32, y: u32, w: u32, tone: Tone, glow: Tone },
    /// A meter, filled in thousandths.
    Meter { x: u32, y: u32, w: u32, h: u32, permille: u32, track: Tone, tone: Tone },
    /// A region faded towards a tone; 255 leaves it as it is.
    Fade { x: u32, y: u32, w: u32, h: u32, to: Tone, alpha: u8 },
    /// The open ring of the restart glyph, and of the power glyph.
    RestartRing { x: u32, y: u32, ink: Ink },
    PowerRing { x: u32, y: u32, ink: Ink },
}

/// An operation as it is spoken of.
pub type Drawn = Op<Seq<u8>>;

impl Op<Vec<u8>> {
    /// What is drawn, in words.
    pub open spec fn view(self) -> Drawn {
        match self {
            Op::Fill { x, y, w, h, ink } => Op::Fill { x, y, w, h, ink },
            Op::Gradient { x, y, w, h, from, to } => Op::Gradient { x, y, w, h, from, to },
            Op::Disc { x, y, r, ink } => Op::Disc { x, y, r, ink },
            Op::Rounded { x, y, w, h, r, ink } => Op::Rounded { x, y, w, h, r, ink },
            Op::RoundedOutline { x, y, w, h, r, ink } => Op::RoundedOutline { x, y, w, h, r, ink },
            Op::Text { face, x, y, text, ink } => Op::Text { face, x, y, text: text@, ink },
            Op::Centred { face, x, w, y, text, ink } => Op::Centred {
                face,
                x,
                w,
                y,
                text: text@,
                ink,
            },
            Op::Right { face, right, y, text, ink } => Op::Right {
                face,
                right,
                y,
                text: text@,
                ink,
            },
            Op::Glow { face, x, y, text, ink, halo, spread } => Op::Glow {
                face,
                x,
                y,
                text: text@,
                ink,
                halo,
                spread,
            },
            Op::Chip { face, x, y, w, h, text, ink, label } => Op::Chip {
                face,
                x,
                y,
                w,
                h,
                text: text@,
                ink,
                label,
            },
            Op::Underline { x, y, w, tone, glow } => Op::Underline { x, y, w, tone, glow },
            Op::Meter { x, y, w, h, permille, track, tone } => Op::Meter {
                x,
                y,
                w,
                h,
                permille,
                track,
                tone,
            },
            Op::Fade { x, y, w, h, to, alpha } => Op::Fade { x, y, w, h, to, alpha },
            Op::RestartRing { x, y, ink } => Op::RestartRing { x, y, ink },
            Op::PowerRing { x, y, ink } => Op::PowerRing { x, y, ink },
        }
    }
}

/// What is to be drawn, in order.
pub struct Canvas {
    pub ops: Vec<Op<Vec<u8>>>,
}

impl View for Canvas {
    type V = Seq<Drawn>;

    open spec fn view(&self) -> Seq<Drawn> {
        Seq::new(self.ops@.len(), |i: int| self.ops@[i].view())
    }
}

/// The bytes drawn of a label: the text it shows.
pub open spec fn printed(bytes: Seq<u8>) -> Seq<u8> {
    vstd::utf8::encode_utf8(shown(bytes))
}

/// What is drawn of a label is no longer than the label.
pub proof fn printed_is_no_longer(bytes: Seq<u8>)
    ensures
        printed(bytes).len() <= bytes.len() || printed(bytes).len() == 1,
{
    if vstd::utf8::valid_utf8(bytes) {
        vstd::utf8::decode_utf8_encode_utf8(bytes);
    } else {
        reveal_strlit("?");
        assert(vstd::utf8::is_ascii_chars("?"@));
        vstd::utf8::is_ascii_chars_encode_utf8("?"@);
    }
}

/// The bytes of a string.
fn owned(s: &str) -> (r: Vec<u8>)
    ensures
        r@ == utf8(s),
{
    s.as_bytes_vec()
}

impl Canvas {
    /// Nothing yet.
    pub fn new() -> (r: Canvas)
        ensures
            r@ == Seq::<Drawn>::empty(),
    {
        let r = Canvas { ops: Vec::new() };
        assert(r@ =~= Seq::<Drawn>::empty());
        r
    }

    /// Adds one operation.
    pub fn push(&mut self, op: Op<Vec<u8>>)
        ensures
            final(self)@ == old(self)@.push(op.view()),
    {
        self.ops.push(op);
        assert(self@ =~= old(self)@.push(op.view()));
    }

    /// Adds another canvas's operations after this one's.
    pub fn append(&mut self, other: Canvas)
        ensures
            final(self)@ == old(self)@ + other@,
    {
        let mut other = other;
        let ghost theirs = other@;
        self.ops.append(&mut other.ops);
        assert(self@ =~= old(self)@ + theirs);
    }

    pub fn fill(&mut self, x: u32, y: u32, w: u32, h: u32, ink: Ink)
        ensures
            final(self)@ == old(self)@.push(Op::Fill { x, y, w, h, ink }),
    {
        self.push(Op::Fill { x, y, w, h, ink });
    }

    pub fn text(&mut self, face: FaceId, x: u32, y: u32, s: &str, ink: Ink)
        ensures
            final(self)@ == old(self)@.push(Op::Text { face, x, y, text: utf8(s), ink }),
    {
        self.push(Op::Text { face, x, y, text: owned(s), ink });
    }

    pub fn centred(&mut self, face: FaceId, x: u32, w: u32, y: u32, s: &str, ink: Ink)
        ensures
            final(self)@ == old(self)@.push(Op::Centred { face, x, w, y, text: utf8(s), ink }),
    {
        self.push(Op::Centred { face, x, w, y, text: owned(s), ink });
    }

    pub fn right(&mut self, face: FaceId, right: u32, y: u32, s: &str, ink: Ink)
        ensures
            final(self)@ == old(self)@.push(Op::Right { face, right, y, text: utf8(s), ink }),
    {
        self.push(Op::Right { face, right, y, text: owned(s), ink });
    }

    pub fn glow(
        &mut self,
        face: FaceId,
        x: u32,
        y: u32,
        s: &str,
        ink: Ink,
        halo: Tone,
        spread: u32,
    )
        ensures
            final(self)@ == old(self)@.push(
                Op::Glow { face, x, y, text: utf8(s), ink, halo, spread },
            ),
    {
        self.push(Op::Glow { face, x, y, text: owned(s), ink, halo, spread });
    }

    pub fn chip(
        &mut self,
        x: u32,
        y: u32,
        w: u32,
        h: u32,
        s: &str,
        ink: Ink,
        label: Ink,
    )
        ensures
            final(self)@ == old(self)@.push(
                Op::Chip { face: FaceId::Body, x, y, w, h, text: utf8(s), ink, label },
            ),
    {
        self.push(Op::Chip { face: FaceId::Body, x, y, w, h, text: owned(s), ink, label });
    }
}

/// A string is as wide as its bytes are one after the other, and an empty one
/// has no width.
pub proof fn a_string_is_as_wide_as_its_bytes(face: Face, bytes: Seq<u8>, byte: u8)
    ensures
        face.width(seq![]) == 0,
        face.width(bytes.push(byte)) == face.width(bytes) + face.advance@[byte as int],
{
    assert(bytes.push(byte).drop_last() =~= bytes);
}

/// What is drawn of a label that is text is the label.
pub proof fn a_label_is_drawn_as_it_is(bytes: Seq<u8>)
    requires
        vstd::utf8::valid_utf8(bytes),
    ensures
        printed(bytes) == bytes,
{
    vstd::utf8::decode_utf8_encode_utf8(bytes);
}

/// Every name has the face of that name.
pub proof fn faces_have_their_names(faces: Typeface)
    ensures
        faces.of(FaceId::Body) == faces.body,
        faces.of(FaceId::Heading) == faces.heading,
        faces.of(FaceId::Title) == faces.title,
        faces.of(FaceId::Readout) == faces.readout,
        faces.of(FaceId::ReadoutBig) == faces.readout_big,
{
}

} // verus!

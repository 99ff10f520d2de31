//! What moves and what can be clicked.

use crate::gui::canvas::{Ink, Tone};
use vstd::prelude::*;

verus! {

/// How a value eases towards where it is going: from the value, the target
/// and a rate, the next value. Supplied by the theme.
pub struct Ease<F: Fn(i32, i32, i32) -> i32> {
    pub step: F,
}

impl<F: Fn(i32, i32, i32) -> i32> Ease<F> {
    /// The value after this one.
    pub open spec fn next(self, value: i32, target: i32, rate: i32) -> i32 {
        choose|after: i32| call_ensures(self.step, (value, target, rate), after)
    }

    /// Every step can be taken, and the same step always leads to the same
    /// place.
    pub open spec fn wf(self) -> bool {
        &&& forall|v: i32, t: i32, r: i32| #[trigger] call_requires(self.step, (v, t, r))
        &&& forall|v: i32, t: i32, r: i32, after: i32| #[trigger]
            call_ensures(self.step, (v, t, r), after) ==> after == self.next(v, t, r)
    }
}

/// A value on its way somewhere.
#[derive(Debug, Clone, Copy, PartialEq, Eq, Structural)]
pub struct Tween {
    pub value: i32,
    pub target: i32,
    pub rate: i32,
}

impl Tween {
    /// At rest at a value.
    pub open spec fn at(value: i32, rate: i32) -> Tween {
        Tween { value, target: value, rate }
    }

    pub fn with_rate(value: i32, rate: i32) -> (r: Tween)
        ensures
            r == Tween::at(value, rate),
    {
        Tween { value, target: value, rate }
    }

    /// Aims at another value.
    pub fn retarget(&mut self, target: i32)
        ensures
            *final(self) == old(self).aimed(target),
    {
        self.target = target;
    }

    /// One frame on.
    pub open spec fn stepped<F: Fn(i32, i32, i32) -> i32>(self, ease: Ease<F>) -> Tween {
        Tween { value: ease.next(self.value, self.target, self.rate), ..self }
    }

    /// Takes one frame's step; whether the value moved.
    pub fn step<F: Fn(i32, i32, i32) -> i32>(&mut self, ease: &Ease<F>) -> (r: bool)
        requires
            ease.wf(),
        ensures
            *final(self) == old(self).stepped(*ease),
            r == (final(self).value != old(self).value),
    {
        let before: i32 = self.value;
        self.value = (ease.step)(before, self.target, self.rate);
        self.value != before
    }

    /// Whether it has arrived.
    pub fn settled(&self) -> (r: bool)
        ensures
            r == self.is_settled(),
    {
        self.value == self.target
    }
}

/// A number held between two others.
pub open spec fn held(value: int, low: int, high: int) -> int {
    if value < low {
        low
    } else if value > high {
        high
    } else {
        value
    }
}

/// A number held between two others.
pub fn clamp(value: u32, low: u32, high: u32) -> (r: u32)
    requires
        low <= high,
    ensures
        r == held(value as int, low as int, high as int),
{
    if value < low {
        low
    } else if value > high {
        high
    } else {
        value
    }
}

/// How lit a tween is, in thousandths.
pub open spec fn lit_of(tween: Tween) -> int {
    held(tween.value as int, 0, 1000)
}

/// How lit a tween is, in thousandths.
pub fn lit(tween: &Tween) -> (r: u32)
    ensures
        r == lit_of(*tween),
        r <= 1000,
{
    if tween.value < 0 {
        0
    } else if tween.value > 1000 {
        1000
    } else {
        tween.value as u32
    }
}

/// A tween's value, as a length.
pub open spec fn length_of(tween: Tween) -> int {
    if tween.value > 0 {
        tween.value as int
    } else {
        0
    }
}

/// A tween's value, as a length.
pub fn length(tween: &Tween) -> (r: u32)
    ensures
        r == length_of(*tween),
{
    if tween.value > 0 {
        tween.value as u32
    } else {
        0
    }
}

/// A rectangle a click can be tested against.
#[derive(Debug, Clone, Copy, PartialEq, Eq, Structural)]
pub struct Hitbox {
    pub x: u32,
    pub y: u32,
    pub w: u32,
    pub h: u32,
}

impl Default for Hitbox {
    fn default() -> (r: Hitbox)
        ensures
            r == Hitbox::nowhere(),
    {
        Hitbox { x: 0, y: 0, w: 0, h: 0 }
    }
}

impl Hitbox {
    /// The box nothing hits.
    pub open spec fn nowhere() -> Hitbox {
        Hitbox { x: 0, y: 0, w: 0, h: 0 }
    }

    /// Its far edges are coordinates.
    pub open spec fn wf(self) -> bool {
        self.x + self.w <= i32::MAX && self.y + self.h <= i32::MAX
    }

    /// Whether a point is in it.
    pub open spec fn covers(self, x: int, y: int) -> bool {
        self.x <= x < self.x + self.w && self.y <= y < self.y + self.h
    }

    /// Whether a point is in it.
    pub fn contains(&self, x: i32, y: i32) -> (r: bool)
        requires
            self.wf(),
        ensures
            r == self.covers(x as int, y as int),
    {
        self.w > 0 && x >= self.x as i32 && y >= self.y as i32 && x < (self.x + self.w) as i32
            && y < (self.y + self.h) as i32
    }
}

/// One control that can be clicked and can light up under the pointer.
#[derive(Debug, Clone, Copy, PartialEq, Eq, Structural)]
pub struct Control {
    pub box_: Hitbox,
    /// How lit it is, 0 to 1000. A tween rather than a flag, which is the
    /// difference between a control that responds and one that switches.
    pub highlight: Tween,
}

impl Control {
    /// A control that is nowhere and dark.
    pub open spec fn dark() -> Control {
        Control { box_: Hitbox::nowhere(), highlight: Tween::at(0, 200) }
    }

    pub fn new() -> (r: Control)
        ensures
            r == Control::dark(),
    {
        Control { box_: Hitbox::default(), highlight: Tween::with_rate(0, 200) }
    }

    /// How lit a control should be: fully when selected, partly when hovered
    /// over.
    pub open spec fn aim(hovered: bool, selected: bool) -> i32 {
        if selected {
            1000
        } else if hovered {
            420
        } else {
            0
        }
    }

    /// The control one frame on.
    pub open spec fn stepped<F: Fn(i32, i32, i32) -> i32>(
        self,
        hovered: bool,
        selected: bool,
        ease: Ease<F>,
    ) -> Control {
        let aimed = Tween { target: Control::aim(hovered, selected), ..self.highlight };
        Control { highlight: aimed.stepped(ease), ..self }
    }

    /// Aims the highlight at where it should be for this state, and steps it.
    pub fn step<F: Fn(i32, i32, i32) -> i32>(
        &mut self,
        hovered: bool,
        selected: bool,
        ease: &Ease<F>,
    ) -> (r: bool)
        requires
            ease.wf(),
        ensures
            *final(self) == old(self).stepped(hovered, selected, *ease),
            r == (final(self).highlight.value != old(self).highlight.value),
    {
        let target: i32 = if selected {
            1000
        } else if hovered {
            420
        } else {
            0
        };
        self.highlight.retarget(target);
        self.highlight.step(ease)
    }

    /// The colour of a control: from the panel to the hover tone as it lights
    /// up under the pointer, and on to the accent as it is selected.
    pub open spec fn ink(self) -> Ink {
        let t = lit_of(self.highlight);
        if t <= 420 {
            Ink::Mix { from: Tone::Panel, to: Tone::Hover, permille: (t * 1000 / 420) as u32 }
        } else {
            Ink::Mix {
                from: Tone::Hover,
                to: Tone::Accent,
                permille: ((t - 420) * 1000 / 580) as u32,
            }
        }
    }

    pub fn colour(&self) -> (r: Ink)
        ensures
            r == self.ink(),
    {
        let t: u32 = lit(&self.highlight);
        if t <= 420 {
            Ink::Mix { from: Tone::Panel, to: Tone::Hover, permille: t * 1000 / 420 }
        } else {
            Ink::Mix { from: Tone::Hover, to: Tone::Accent, permille: (t - 420) * 1000 / 580 }
        }
    }

    /// The colour of a control's label. The selected chip's background is the
    /// accent, so its label goes dark or it disappears into it.
    pub open spec fn label_ink(self) -> Ink {
        Ink::Mix { from: Tone::Text, to: Tone::Background, permille: lit_of(self.highlight) as u32 }
    }

    pub fn label_colour(&self) -> (r: Ink)
        ensures
            r == self.label_ink(),
    {
        Ink::Mix { from: Tone::Text, to: Tone::Background, permille: lit(&self.highlight) }
    }
}

/// A control's colour never goes past either of the tones it lies between.
pub proof fn a_control_stays_between_its_tones(control: Control)
    ensures
        control.ink() matches Ink::Mix { permille, .. } ==> permille <= 1000,
        control.label_ink() matches Ink::Mix { permille, .. } ==> permille <= 1000,
        control.ink() is Mix && control.label_ink() is Mix,
{
}

/// A tween steps towards where it is aimed and at the rate it has; one that is
/// made is at rest.
pub proof fn a_tween_steps_towards_its_target<F: Fn(i32, i32, i32) -> i32>(
    tween: Tween,
    ease: Ease<F>,
)
    ensures
        tween.stepped(ease).value == ease.next(tween.value, tween.target, tween.rate),
        tween.stepped(ease).target == tween.target && tween.stepped(ease).rate == tween.rate,
        Tween::at(tween.value, tween.rate).target == tween.value,
        Tween::at(tween.value, tween.rate).value == tween.value,
        Tween::at(tween.value, tween.rate).rate == tween.rate,
        lit_of(tween) == (if tween.value < 0 {
            0
        } else if tween.value > 1000 {
            1000
        } else {
            tween.value as int
        }),
        length_of(tween) == (if tween.value < 0 {
            0
        } else {
            tween.value as int
        }),
{
}

/// A number between the two stays, and one beyond either becomes that one.
pub proof fn what_is_held(value: int, low: int, high: int)
    requires
        low <= high,
    ensures
        low <= value <= high ==> held(value, low, high) == value,
        value < low ==> held(value, low, high) == low,
        value > high ==> held(value, low, high) == high,
{
}

/// A box is hit from its corner on and up to where it ends; one that is nowhere
/// is never hit.
pub proof fn what_a_box_covers(b: Hitbox, x: int, y: int)
    ensures
        b.covers(x, y) <==> 0 <= x - b.x < b.w && 0 <= y - b.y < b.h,
        !Hitbox::nowhere().covers(x, y),
        Hitbox::nowhere().x == 0 && Hitbox::nowhere().y == 0 && Hitbox::nowhere().w == 0
            && Hitbox::nowhere().h == 0,
{
}

/// A control lights up fully where it is selected and to 420 thousandths where
/// the pointer is over it, goes dark otherwise, and stays where it is. Its colour
/// goes from the panel's to the hover tone over the first 420 and from there to
/// the accent, and its label from the text's to the background's.
pub proof fn how_a_control_lights_up<F: Fn(i32, i32, i32) -> i32>(
    control: Control,
    hovered: bool,
    ease: Ease<F>,
)
    ensures
        ({
            let (value, rate) = (control.highlight.value, control.highlight.rate);
            &&& control.stepped(hovered, true, ease).highlight.value == ease.next(value, 1000, rate)
            &&& control.stepped(true, false, ease).highlight.value == ease.next(value, 420, rate)
            &&& control.stepped(false, false, ease).highlight.value == ease.next(value, 0, rate)
            &&& control.stepped(hovered, true, ease).box_ == control.box_
            &&& control.stepped(hovered, false, ease).box_ == control.box_
        }),
        control.highlight.value <= 0 ==> control.ink() == (Ink::Mix {
            from: Tone::Panel,
            to: Tone::Hover,
            permille: 0,
        }) && control.label_ink() == (Ink::Mix {
            from: Tone::Text,
            to: Tone::Background,
            permille: 0,
        }),
        control.highlight.value == 420 ==> control.ink() == (Ink::Mix {
            from: Tone::Panel,
            to: Tone::Hover,
            permille: 1000,
        }),
        control.highlight.value >= 1000 ==> control.ink() == (Ink::Mix {
            from: Tone::Hover,
            to: Tone::Accent,
            permille: 1000,
        }) && control.label_ink() == (Ink::Mix {
            from: Tone::Text,
            to: Tone::Background,
            permille: 1000,
        }),
        0 <= control.highlight.value <= 1000 ==> (control.label_ink() matches Ink::Mix {
            permille,
            ..
        } && permille == control.highlight.value),
        0 <= control.highlight.value <= 420 ==> (control.ink() matches Ink::Mix { to, permille, .. }
            && to == Tone::Hover && permille == control.highlight.value * 1000 / 420),
        420 < control.highlight.value <= 1000 ==> (control.ink() matches Ink::Mix {
            from,
            permille,
            ..
        } && from == Tone::Hover && permille == (control.highlight.value - 420) * 1000 / 580),
        Control::dark().highlight.value == 0 && Control::dark().highlight.rate == 200,
{
}

impl Tween {
    /// The tween on its way to another value.
    pub open spec fn aimed(self, target: i32) -> Tween {
        Tween { target, ..self }
    }

    /// Whether the tween has arrived.
    pub open spec fn is_settled(self) -> bool {
        self.value == self.target
    }
}

/// A tween is settled exactly where it was aimed at what it is, and aiming moves
/// nothing yet.
pub proof fn a_tween_settles_where_it_is_aimed(tween: Tween, target: i32)
    ensures
        tween.aimed(tween.value).is_settled(),
        tween.aimed(target).is_settled() <==> tween.value == target,
        tween.aimed(target).value == tween.value && tween.aimed(target).rate == tween.rate
            && tween.aimed(target).target == target,
        Tween::at(target, tween.rate).is_settled(),
{
}

} // verus!

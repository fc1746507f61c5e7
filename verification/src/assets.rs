//! Asset keys and the asset paths they resolve to.
//!
//! The engine's asset server maps string paths to loaded handles; this
//! module owns the choice of which path each logical key, and each authored
//! entity identifier, requests.

use vstd::prelude::*;

verus! {

use crate::items::str_eq;
use crate::items::UnknownIdentifier;

/// Keys of the sprite-animation assets.
#[derive(Clone, Copy, Debug, PartialEq, Eq, Hash, Structural)]
pub enum AsepriteKey {
    Bluberry,
    Hampter,
    HamsterAnimation,
}

impl AsepriteKey {
    /// The asset path this key requests.
    pub fn path(&self) -> (r: &'static str)
        ensures
            *self is Bluberry ==> r@ == "aseprite/bluberry.aseprite"@,
            *self is Hampter ==> r@ == "aseprite/hampter.aseprite"@,
            *self is HamsterAnimation ==> r@ == "aseprite/hamster_animation.aseprite"@,
    {
        match self {
            AsepriteKey::Bluberry => "aseprite/bluberry.aseprite",
            AsepriteKey::Hampter => "aseprite/hampter.aseprite",
            AsepriteKey::HamsterAnimation => "aseprite/hamster_animation.aseprite",
        }
    }
}

/// Keys of the still-image assets.
#[derive(Clone, Copy, Debug, PartialEq, Eq, Hash, Structural)]
pub enum ImageKey {
    Hampter,
    NotCollectedHampter,
    Bluberry,
    Hamsterwheel,
}

impl ImageKey {
    /// The asset path this key requests.
    pub fn path(&self) -> (r: &'static str)
        ensures
            *self is Hampter ==> r@ == "images/hampter.png"@,
            *self is NotCollectedHampter ==> r@ == "images/not_collected_hampter.png"@,
            *self is Bluberry ==> r@ == "images/bluberry.png"@,
            *self is Hamsterwheel ==> r@ == "images/hamsterwheel.png"@,
    {
        match self {
            ImageKey::Hampter => "images/hampter.png",
            ImageKey::NotCollectedHampter => "images/not_collected_hampter.png",
            ImageKey::Bluberry => "images/bluberry.png",
            ImageKey::Hamsterwheel => "images/hamsterwheel.png",
        }
    }
}

/// Keys of the sound-effect assets.
#[derive(Clone, Copy, Debug, PartialEq, Eq, Hash, Structural)]
pub enum SfxKey {
    ButtonHover,
    ButtonPress,
    Step1,
    Step2,
    Step3,
    Step4,
}

impl SfxKey {
    /// The asset path this key requests.
    pub fn path(&self) -> (r: &'static str)
        ensures
            *self is ButtonHover ==> r@ == "audio/sfx/button_hover.ogg"@,
            *self is ButtonPress ==> r@ == "audio/sfx/button_press.ogg"@,
            *self is Step1 ==> r@ == "audio/sfx/step1.ogg"@,
            *self is Step2 ==> r@ == "audio/sfx/step2.ogg"@,
            *self is Step3 ==> r@ == "audio/sfx/step3.ogg"@,
            *self is Step4 ==> r@ == "audio/sfx/step4.ogg"@,
    {
        match self {
            SfxKey::ButtonHover => "audio/sfx/button_hover.ogg",
            SfxKey::ButtonPress => "audio/sfx/button_press.ogg",
            SfxKey::Step1 => "audio/sfx/step1.ogg",
            SfxKey::Step2 => "audio/sfx/step2.ogg",
            SfxKey::Step3 => "audio/sfx/step3.ogg",
            SfxKey::Step4 => "audio/sfx/step4.ogg",
        }
    }
}

/// Keys of the soundtrack assets.
#[derive(Clone, Copy, Debug, PartialEq, Eq, Hash, Structural)]
pub enum SoundtrackKey {
    Credits,
    Gameplay,
}

impl SoundtrackKey {
    /// The asset path this key requests.
    pub fn path(&self) -> (r: &'static str)
        ensures
            *self is Credits ==> r@ == "audio/soundtracks/monkeys_spinning_monkeys.ogg"@,
            *self is Gameplay ==> r@ == "audio/soundtracks/fluffing_a_duck.ogg"@,
    {
        match self {
            SoundtrackKey::Credits => "audio/soundtracks/monkeys_spinning_monkeys.ogg",
            SoundtrackKey::Gameplay => "audio/soundtracks/fluffing_a_duck.ogg",
        }
    }
}

/// The animation asset an authored entity identifier selects, together with
/// the sprite offset (in thousandths) the child sprite is placed at.
pub struct AnimationSelection {
    pub path: &'static str,
    pub offset_x: i64,
    pub offset_y: i64,
    pub offset_z: i64,
}

/// Select the animation asset for an authored entity identifier: the two
/// item kinds and the player each have one, every other name (including the
/// placeholder item kind) is an error surfaced to the level loader.
pub fn animation_for_identifier(ident: &str) -> (r: Result<AnimationSelection, UnknownIdentifier>)
    ensures
        ident@ == "Hampter"@ ==> (r matches Ok(a) && a.path@ == "images/hampter.aseprite"@
            && a.offset_x == 0 && a.offset_y == 0 && a.offset_z == 0),
        ident@ == "Bluberry"@ ==> (r matches Ok(a) && a.path@ == "images/bluberry.aseprite"@
            && a.offset_x == 0 && a.offset_y == 0 && a.offset_z == 0),
        ident@ == "Player"@ ==> (r matches Ok(a) && a.path@
            == "images/hamster-animation.aseprite"@ && a.offset_x == 0 && a.offset_y == -10_000
            && a.offset_z == -1000),
        ident@ != "Hampter"@ && ident@ != "Bluberry"@ && ident@ != "Player"@ ==> r is Err,
{
    proof {
        reveal_strlit("Hampter");
        reveal_strlit("Bluberry");
        reveal_strlit("Player");
        assert("Hampter"@.len() == 7);
        assert("Bluberry"@.len() == 8);
        assert("Player"@.len() == 6);
        assert("Hampter"@ != "Bluberry"@);
        assert("Hampter"@ != "Player"@);
        assert("Bluberry"@ != "Player"@);
    }
    if str_eq(ident, "Hampter") {
        Ok(AnimationSelection { path: "images/hampter.aseprite", offset_x: 0, offset_y: 0, offset_z: 0 })
    } else if str_eq(ident, "Bluberry") {
        Ok(
            AnimationSelection {
                path: "images/bluberry.aseprite",
                offset_x: 0,
                offset_y: 0,
                offset_z: 0,
            },
        )
    } else if str_eq(ident, "Player") {
        Ok(
            AnimationSelection {
                path: "images/hamster-animation.aseprite",
                offset_x: 0,
                offset_y: -10_000,
                offset_z: -1000,
            },
        )
    } else {
        Err(UnknownIdentifier)
    }
}

} // verus!

//! The sounds that a tick asks for.

use vstd::prelude::*;

verus! {

/// A sound to play. The request is made and forgotten: nothing in the rules
/// depends on whether it is played.
#[derive(Clone, Copy, Debug, PartialEq, Eq, Structural)]
pub enum Sound {
    /// An enemy bounced off an edge of the window.
    Bounce,
    /// An enemy hit the player.
    Explosion,
    /// The player collected a star.
    Collect,
}

/// The name by which a sound is asked for.
pub open spec fn clip_of(sound: Sound) -> Seq<char> {
    match sound {
        Sound::Bounce => "bounce"@,
        Sound::Explosion => "explosion"@,
        Sound::Collect => "collect"@,
    }
}

/// The sounds of one tick in the order of its rules: one bounce for each
/// enemy that bounced, one explosion if the player was hit, one collect for
/// each star taken.
pub open spec fn sounds_of(bounces: nat, player_hit: bool, collected: nat) -> Seq<Sound> {
    Seq::new(bounces, |i: int| Sound::Bounce) + (if player_hit {
        seq![Sound::Explosion]
    } else {
        Seq::empty()
    }) + Seq::new(collected, |i: int| Sound::Collect)
}

impl Sound {
    /// The name by which this sound is asked for.
    pub fn clip_id(self) -> (id: &'static str)
        ensures
            id@ == clip_of(self),
    {
        match self {
            Sound::Bounce => "bounce",
            Sound::Explosion => "explosion",
            Sound::Collect => "collect",
        }
    }
}

/// Lists the sounds of one tick.
pub fn sounds_for(bounces: usize, player_hit: bool, collected: usize) -> (sounds: Vec<Sound>)
    ensures
        sounds@ == sounds_of(bounces as nat, player_hit, collected as nat),
{
    let mut sounds: Vec<Sound> = Vec::new();
    let mut i: usize = 0;
    while i < bounces
        invariant
            i <= bounces,
            sounds@ == Seq::new(i as nat, |k: int| Sound::Bounce),
        decreases bounces - i,
    {
        sounds.push(Sound::Bounce);
        i += 1;
    }
    if player_hit {
        sounds.push(Sound::Explosion);
    }
    let ghost before = sounds@;
    let mut j: usize = 0;
    while j < collected
        invariant
            j <= collected,
            sounds@ == before + Seq::new(j as nat, |k: int| Sound::Collect),
        decreases collected - j,
    {
        sounds.push(Sound::Collect);
        j += 1;
    }
    sounds
}

} // verus!

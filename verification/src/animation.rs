//! Animation marker state: which clip an agent is currently playing, and the
//! per-agent table mapping clip names to loaded clip handles.
//!
//! Actually playing a clip is a rendering concern outside this engine; here
//! an agent that is animating simply carries an `Animating` marker, attached
//! by the start-animation action, and the table lookup picks the clip handle
//! that the playback layer should use.

use vstd::prelude::*;

verus! {

/// An agent that is playing an animation.
#[derive(Debug)]
pub struct Animating {
    animation_clip_name: String,
}

impl Animating {
    /// The name of the clip being played.
    pub closed spec fn clip_name(self) -> Seq<char> {
        self.animation_clip_name@
    }

    pub fn from_animation_clip_name(name: String) -> (r: Self)
        ensures
            r.clip_name() == name@,
    {
        Animating { animation_clip_name: name }
    }
}

/// Clip handles for a given agent, keyed by clip name. Handles are plain
/// identifiers for the playback layer. A name registered twice resolves to
/// its later entry: registration overwrites, as a keyed table's insert does.
#[derive(Debug)]
pub struct AnimationClips(pub Vec<(String, u64)>);

impl AnimationClips {
    /// The handle of the last entry named `name`, if any: later registrations
    /// of a name overwrite earlier ones.
    pub open spec fn lookup(entries: Seq<(String, u64)>, name: Seq<char>) -> Option<u64>
        decreases entries.len(),
    {
        if entries.len() == 0 {
            None
        } else if entries.last().0@ == name {
            Some(entries.last().1)
        } else {
            Self::lookup(entries.drop_last(), name)
        }
    }

    /// Looks up the handle for the clip named `name`.
    pub fn get(&self, name: &String) -> (r: Option<u64>)
        ensures
            r == Self::lookup(self.0@, name@),
    {
        lookup_handle(&self.0, name)
    }
}

/// Looks a name up in a handle table: the last entry with that name wins,
/// mirroring how inserting into a keyed table overwrites.
pub fn lookup_handle(table: &Vec<(String, u64)>, name: &String) -> (r: Option<u64>)
    ensures
        r == AnimationClips::lookup(table@, name@),
{
    let mut i: usize = table.len();
    proof {
        assert(table@.take(table@.len() as int) =~= table@);
    }
    while i > 0
        invariant
            i <= table@.len(),
            AnimationClips::lookup(table@, name@) == AnimationClips::lookup(
                table@.take(i as int),
                name@,
            ),
        decreases i,
    {
        i = i - 1;
        proof {
            assert(table@.take(i as int + 1).drop_last() =~= table@.take(i as int));
            assert(table@.take(i as int + 1).last() == table@[i as int]);
        }
        if table[i].0.eq(name) {
            return Some(table[i].1);
        }
    }
    proof {
        assert(table@.take(0) =~= Seq::<(String, u64)>::empty());
    }
    None
}

/// The clip handle to play for an agent that carries an `Animating` marker:
/// the computational part of starting animation playback.
pub fn clip_to_play(animating: &Animating, clips: &AnimationClips) -> (r: Option<u64>)
    ensures
        r == AnimationClips::lookup(clips.0@, animating.clip_name()),
{
    let name = animating.clip_name_string();
    clips.get(name)
}

impl Animating {
    /// The clip name as a string.
    pub fn clip_name_string(&self) -> (r: &String)
        ensures
            r@ == self.clip_name(),
    {
        &self.animation_clip_name
    }
}

/// Lets a parent entity reach the animation player buried within its scene
/// hierarchy, by the player entity's index.
#[derive(Clone, Copy, Debug)]
pub struct AnimationEntityLink(pub u64);

/// Where a walk up the parent links ends after at most `fuel` steps: the
/// entity itself once it has no parent, or wherever the fuel runs out.
pub open spec fn top_parent(parents: Seq<Option<usize>>, e: int, fuel: nat) -> int
    decreases fuel,
{
    if fuel == 0 {
        e
    } else if 0 <= e < parents.len() {
        match parents[e] {
            Some(p) => top_parent(parents, p as int, (fuel - 1) as nat),
            None => e,
        }
    } else {
        e
    }
}

/// Walks up the parent links all the way to the topmost ancestor: the
/// hierarchy step of linking an animation player to the entity that carries
/// the animation table. The walk is bounded by the number of entities, so a
/// malformed, cyclic hierarchy cannot hang it.
pub fn get_top_parent(entity: usize, parents: &Vec<Option<usize>>) -> (r: usize)
    requires
        entity < parents@.len(),
        forall|j: int|
            0 <= j < parents@.len() ==> match #[trigger] parents@[j] {
                Some(p) => p < parents@.len(),
                None => true,
            },
    ensures
        r == top_parent(parents@, entity as int, parents@.len()),
        r < parents@.len(),
{
    let mut current = entity;
    let mut fuel = parents.len();
    while fuel > 0
        invariant
            current < parents@.len(),
            fuel <= parents@.len(),
            top_parent(parents@, entity as int, parents@.len()) == top_parent(
                parents@,
                current as int,
                fuel as nat,
            ),
            forall|j: int|
                0 <= j < parents@.len() ==> match #[trigger] parents@[j] {
                    Some(p) => p < parents@.len(),
                    None => true,
                },
        decreases fuel,
    {
        match parents[current] {
            Some(p) => {
                current = p;
                fuel = fuel - 1;
            },
            None => {
                return current;
            },
        }
    }
    current
}

} // verus!

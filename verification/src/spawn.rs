//! Spawning agents from configuration: the decisions about which components
//! an actor gets, which assets must be preloaded, and how clip names resolve
//! to loaded handles. Reading configuration files and creating entities are
//! the host's work; this module only computes the plan.

use vstd::prelude::*;

use crate::animation::AnimationClips;

verus! {

/// Entities that can be spawned from config files.
#[derive(Clone, Copy, Debug, PartialEq, Eq, Hash, Structural)]
pub enum Config {
    Actor,
    Level,
    SoundWave,
}

/// Properties for configuring actor entities.
///
/// They do not necessarily map one-to-one to the entity's components. Speeds
/// are in mm/s and mils/s, the physics radius in mm.
#[derive(Debug)]
pub enum ActorProperty {
    Player,
    Guard,
    SecurityCamera,
    Pickup,
    Weapon,
    FloorSwitch,
    Door,
    Glass,
    Speed { linear_speed: u64, angular_speed: u64 },
    Physics { radius: u64 },
    Footsteps { sound_wave: String },
    DropShadow,
    Vision,
    Hearing,
    Stunnable,
    Barrier,
    BlocksVision,
    DeflectsSounds,
    Scene(String),
    AnimationClips(Vec<(String, String)>),
}

/// Actor entity configuration.
#[derive(Debug)]
pub struct ActorConfig(pub Vec<ActorProperty>);

/// The last speed property in the list, if any: later properties overwrite
/// earlier ones.
pub open spec fn last_speed(s: Seq<ActorProperty>) -> Option<(u64, u64)>
    decreases s.len(),
{
    if s.len() == 0 {
        None
    } else {
        match s.last() {
            ActorProperty::Speed { linear_speed, angular_speed } => Some(
                (linear_speed, angular_speed),
            ),
            _ => last_speed(s.drop_last()),
        }
    }
}

/// The last scene path in the list, if any.
pub open spec fn last_scene(s: Seq<ActorProperty>) -> Option<Seq<char>>
    decreases s.len(),
{
    if s.len() == 0 {
        None
    } else {
        match s.last() {
            ActorProperty::Scene(p) => Some(p@),
            _ => last_scene(s.drop_last()),
        }
    }
}

/// The last footsteps sound-wave name in the list, if any.
pub open spec fn last_footsteps(s: Seq<ActorProperty>) -> Option<Seq<char>>
    decreases s.len(),
{
    if s.len() == 0 {
        None
    } else {
        match s.last() {
            ActorProperty::Footsteps { sound_wave } => Some(sound_wave@),
            _ => last_footsteps(s.drop_last()),
        }
    }
}

/// Whether the list holds a property of the probed marker sort; the sort is
/// named by its position in the declaration, so this stays one predicate.
pub open spec fn has_guard(s: Seq<ActorProperty>) -> bool {
    exists|i: int| 0 <= i < s.len() && (#[trigger] s[i]) is Guard
}

pub open spec fn has_player(s: Seq<ActorProperty>) -> bool {
    exists|i: int| 0 <= i < s.len() && (#[trigger] s[i]) is Player
}

pub open spec fn has_vision(s: Seq<ActorProperty>) -> bool {
    exists|i: int| 0 <= i < s.len() && (#[trigger] s[i]) is Vision
}

pub open spec fn has_hearing(s: Seq<ActorProperty>) -> bool {
    exists|i: int| 0 <= i < s.len() && (#[trigger] s[i]) is Hearing
}

/// Which components an actor entity gets, computed from its configuration.
/// Markers not affecting the scheduling core are carried as flags for the
/// host to act on.
#[derive(Debug)]
pub struct SpawnPlan {
    pub player: bool,
    pub guard: bool,
    pub vision: bool,
    pub hearing: bool,
    pub speed: Option<(u64, u64)>,
    pub scene: Option<String>,
    pub footsteps: Option<String>,
}

/// Computes the spawn plan for one actor configuration: marker flags for the
/// behavior-relevant properties, and last-wins resolution for the data-bearing
/// ones, mirroring how repeated insertions overwrite.
pub fn spawn_actor_plan(config: &ActorConfig) -> (r: SpawnPlan)
    ensures
        r.player == has_player(config.0@),
        r.guard == has_guard(config.0@),
        r.vision == has_vision(config.0@),
        r.hearing == has_hearing(config.0@),
        r.speed == last_speed(config.0@),
        match r.scene {
            Some(p) => last_scene(config.0@) == Some(p@),
            None => last_scene(config.0@) is None,
        },
        match r.footsteps {
            Some(p) => last_footsteps(config.0@) == Some(p@),
            None => last_footsteps(config.0@) is None,
        },
{
    let n = config.0.len();
    let mut r = SpawnPlan {
        player: false,
        guard: false,
        vision: false,
        hearing: false,
        speed: None,
        scene: None,
        footsteps: None,
    };
    let mut i: usize = 0;
    proof {
        assert(config.0@.take(0) =~= Seq::<ActorProperty>::empty());
    }
    while i < n
        invariant
            i <= n,
            n == config.0@.len(),
            r.player == has_player(config.0@.take(i as int)),
            r.guard == has_guard(config.0@.take(i as int)),
            r.vision == has_vision(config.0@.take(i as int)),
            r.hearing == has_hearing(config.0@.take(i as int)),
            r.speed == last_speed(config.0@.take(i as int)),
            match r.scene {
                Some(p) => last_scene(config.0@.take(i as int)) == Some(p@),
                None => last_scene(config.0@.take(i as int)) is None,
            },
            match r.footsteps {
                Some(p) => last_footsteps(config.0@.take(i as int)) == Some(p@),
                None => last_footsteps(config.0@.take(i as int)) is None,
            },
        decreases n - i,
    {
        proof {
            assert(config.0@.take(i as int + 1).drop_last() =~= config.0@.take(i as int));
            assert(config.0@.take(i as int + 1).last() == config.0@[i as int]);
        }
        match &config.0[i] {
            ActorProperty::Player => {
                r.player = true;
            },
            ActorProperty::Guard => {
                r.guard = true;
            },
            ActorProperty::Vision => {
                r.vision = true;
            },
            ActorProperty::Hearing => {
                r.hearing = true;
            },
            ActorProperty::Speed { linear_speed, angular_speed } => {
                r.speed = Some((*linear_speed, *angular_speed));
            },
            ActorProperty::Scene(p) => {
                r.scene = Some(p.clone());
            },
            ActorProperty::Footsteps { sound_wave } => {
                r.footsteps = Some(sound_wave.clone());
            },
            _ => {},
        }
        proof {
            let t1 = config.0@.take(i as int + 1);
            if !(config.0@[i as int] is Player) {
                assert(has_player(t1) == has_player(t1.drop_last())) by {
                    if has_player(t1.drop_last()) {
                        let w = choose|w: int|
                            0 <= w < t1.drop_last().len() && t1.drop_last()[w] is Player;
                        assert(t1[w] is Player);
                    }
                    if has_player(t1) {
                        let w = choose|w: int| 0 <= w < t1.len() && t1[w] is Player;
                        assert(w < t1.len() - 1);
                        assert(t1.drop_last()[w] is Player);
                    }
                }
            } else {
                assert(t1[t1.len() - 1] is Player);
            }
            if !(config.0@[i as int] is Guard) {
                assert(has_guard(t1) == has_guard(t1.drop_last())) by {
                    if has_guard(t1.drop_last()) {
                        let w = choose|w: int|
                            0 <= w < t1.drop_last().len() && t1.drop_last()[w] is Guard;
                        assert(t1[w] is Guard);
                    }
                    if has_guard(t1) {
                        let w = choose|w: int| 0 <= w < t1.len() && t1[w] is Guard;
                        assert(w < t1.len() - 1);
                        assert(t1.drop_last()[w] is Guard);
                    }
                }
            } else {
                assert(t1[t1.len() - 1] is Guard);
            }
            if !(config.0@[i as int] is Vision) {
                assert(has_vision(t1) == has_vision(t1.drop_last())) by {
                    if has_vision(t1.drop_last()) {
                        let w = choose|w: int|
                            0 <= w < t1.drop_last().len() && t1.drop_last()[w] is Vision;
                        assert(t1[w] is Vision);
                    }
                    if has_vision(t1) {
                        let w = choose|w: int| 0 <= w < t1.len() && t1[w] is Vision;
                        assert(w < t1.len() - 1);
                        assert(t1.drop_last()[w] is Vision);
                    }
                }
            } else {
                assert(t1[t1.len() - 1] is Vision);
            }
            if !(config.0@[i as int] is Hearing) {
                assert(has_hearing(t1) == has_hearing(t1.drop_last())) by {
                    if has_hearing(t1.drop_last()) {
                        let w = choose|w: int|
                            0 <= w < t1.drop_last().len() && t1.drop_last()[w] is Hearing;
                        assert(t1[w] is Hearing);
                    }
                    if has_hearing(t1) {
                        let w = choose|w: int| 0 <= w < t1.len() && t1[w] is Hearing;
                        assert(w < t1.len() - 1);
                        assert(t1.drop_last()[w] is Hearing);
                    }
                }
            } else {
                assert(t1[t1.len() - 1] is Hearing);
            }
        }
        i = i + 1;
    }
    proof {
        assert(config.0@.take(n as int) =~= config.0@);
    }
    r
}

/// Resolves each clip name through the preloaded handle table: the
/// computational part of attaching an actor's animation clips. Returns the
/// resolved table, or the index of the first clip whose path was never
/// preloaded.
pub fn resolve_animation_clips(
    clips: &Vec<(String, String)>,
    preloaded: &AnimationClips,
) -> (r: Result<Vec<(String, u64)>, usize>)
    ensures
        match r {
            Ok(out) => {
                &&& out@.len() == clips@.len()
                &&& forall|i: int|
                    0 <= i < clips@.len() ==> (#[trigger] out@[i]).0@ == clips@[i].0@ && Some(
                        out@[i].1,
                    ) == AnimationClips::lookup(preloaded.0@, clips@[i].1@)
            },
            Err(i) => i < clips@.len() && AnimationClips::lookup(preloaded.0@, clips@[i as int].1@)
                is None && forall|j: int|
                0 <= j < i ==> AnimationClips::lookup(
                    preloaded.0@,
                    (#[trigger] clips@[j]).1@,
                ) is Some,
        },
{
    let mut out: Vec<(String, u64)> = Vec::new();
    let n = clips.len();
    let mut i: usize = 0;
    while i < n
        invariant
            i <= n,
            n == clips@.len(),
            out@.len() == i,
            forall|j: int|
                0 <= j < i ==> (#[trigger] out@[j]).0@ == clips@[j].0@ && Some(out@[j].1)
                    == AnimationClips::lookup(preloaded.0@, clips@[j].1@),
        decreases n - i,
    {
        match preloaded.get(&clips[i].1) {
            Some(handle) => {
                out.push((clips[i].0.clone(), handle));
            },
            None => {
                proof {
                    assert forall|j: int| 0 <= j < i implies AnimationClips::lookup(
                        preloaded.0@,
                        (#[trigger] clips@[j]).1@,
                    ) is Some by {
                        assert(Some(out@[j].1) == AnimationClips::lookup(
                            preloaded.0@,
                            clips@[j].1@,
                        ));
                    }
                }
                return Err(i);
            },
        }
        i = i + 1;
    }
    Ok(out)
}

/// Membership of a name among strings.
pub open spec fn contains_name(v: Seq<String>, p: Seq<char>) -> bool {
    exists|k: int| 0 <= k < v.len() && (#[trigger] v[k])@ == p
}

/// Whether some property in the list names this scene path.
pub open spec fn scene_in(props: Seq<ActorProperty>, p: Seq<char>) -> bool {
    exists|i: int|
        0 <= i < props.len() && ((#[trigger] props[i]) matches ActorProperty::Scene(q) && q@ == p)
}

/// Whether the strings hold a string with this view.
fn contains_string(v: &Vec<String>, x: &String) -> (r: bool)
    ensures
        r == contains_name(v@, x@),
{
    let n = v.len();
    let mut i: usize = 0;
    while i < n
        invariant
            i <= n,
            n == v@.len(),
            forall|k: int| 0 <= k < i ==> (#[trigger] v@[k])@ != x@,
        decreases n - i,
    {
        if v[i].eq(x) {
            return true;
        }
        i = i + 1;
    }
    false
}

/// The index of the first property naming this scene path, or the length of
/// the list if none does.
pub open spec fn first_scene_at(props: Seq<ActorProperty>, p: Seq<char>) -> int
    decreases props.len(),
{
    if props.len() == 0 {
        0
    } else if props[0] matches ActorProperty::Scene(q) && q@ == p {
        0
    } else {
        1 + first_scene_at(props.drop_first(), p)
    }
}

/// `first_scene_at` is determined by any witness position.
proof fn lemma_first_scene_at_is(props: Seq<ActorProperty>, p: Seq<char>, k: int)
    requires
        0 <= k < props.len(),
        props[k] matches ActorProperty::Scene(q) && q@ == p,
        forall|j: int|
            0 <= j < k ==> !((#[trigger] props[j]) matches ActorProperty::Scene(q) && q@ == p),
    ensures
        first_scene_at(props, p) == k,
    decreases props.len(),
{
    if k > 0 {
        assert(forall|j: int|
            0 <= j < props.drop_first().len() ==> #[trigger] props.drop_first()[j] == props[j
                + 1]);
        lemma_first_scene_at_is(props.drop_first(), p, k - 1);
    }
}

/// The scene paths that must be loaded before actors referencing these
/// properties can spawn: every scene path named by a property, each exactly
/// once, in first-appearance order.
pub fn scene_paths_to_preload(props: &Vec<ActorProperty>) -> (r: Vec<String>)
    ensures
        // Sound: every collected path is named by some property.
        forall|k: int| 0 <= k < r@.len() ==> scene_in(props@, (#[trigger] r@[k])@),
        // Complete: every scene property's path is collected.
        forall|i: int|
            0 <= i < props@.len() ==> ((#[trigger] props@[i]) matches ActorProperty::Scene(q)
                ==> contains_name(r@, q@)),
        // Deduplicated.
        forall|k: int, l: int| 0 <= k < l < r@.len() ==> (#[trigger] r@[k])@ != (#[trigger] r@[l])@,
        // In first-appearance order.
        forall|k: int, l: int|
            0 <= k < l < r@.len() ==> first_scene_at(props@, (#[trigger] r@[k])@) < first_scene_at(
                props@,
                (#[trigger] r@[l])@,
            ),
{
    let n = props.len();
    let mut out: Vec<String> = Vec::new();
    let mut i: usize = 0;
    while i < n
        invariant
            i <= n,
            n == props@.len(),
            forall|k: int| 0 <= k < out@.len() ==> scene_in(props@, (#[trigger] out@[k])@),
            forall|j: int|
                0 <= j < i ==> ((#[trigger] props@[j]) matches ActorProperty::Scene(q)
                    ==> contains_name(out@, q@)),
            forall|k: int, l: int|
                0 <= k < l < out@.len() ==> (#[trigger] out@[k])@ != (#[trigger] out@[l])@,
            forall|k: int|
                0 <= k < out@.len() ==> 0 <= first_scene_at(props@, (#[trigger] out@[k])@) < i,
            forall|k: int, l: int|
                0 <= k < l < out@.len() ==> first_scene_at(props@, (#[trigger] out@[k])@)
                    < first_scene_at(props@, (#[trigger] out@[l])@),
        decreases n - i,
    {
        match &props[i] {
            ActorProperty::Scene(p) => {
                if !contains_string(&out, p) {
                    let ghost before = out@;
                    out.push(p.clone());
                    proof {
                        assert forall|j: int|
                            0 <= j < i implies !((#[trigger] props@[j])
                            matches ActorProperty::Scene(q) && q@ == p@) by {
                            match props@[j] {
                                ActorProperty::Scene(q) => {
                                    if q@ == p@ {
                                        assert(contains_name(before, q@));
                                    }
                                },
                                _ => {},
                            }
                        }
                        lemma_first_scene_at_is(props@, p@, i as int);
                        assert(out@[out@.len() - 1]@ == props@[i as int]->Scene_0@);
                        assert(forall|k: int|
                            0 <= k < before.len() ==> #[trigger] out@[k] == before[k]);
                        assert forall|j: int|
                            0 <= j <= i implies ((#[trigger] props@[j])
                            matches ActorProperty::Scene(q) ==> contains_name(out@, q@)) by {
                            if j < i {
                                match props@[j] {
                                    ActorProperty::Scene(q) => {
                                        if contains_name(before, q@) {
                                            let w = choose|w: int|
                                                0 <= w < before.len() && (#[trigger] before[w])@
                                                    == q@;
                                            assert(out@[w]@ == q@);
                                        }
                                    },
                                    _ => {},
                                }
                            }
                        }
                    }
                } else {
                    proof {
                        assert(props@[i as int] matches ActorProperty::Scene(q)
                            ==> contains_name(out@, q@));
                    }
                }
            },
            _ => {},
        }
        i = i + 1;
    }
    out
}


/// Whether property `i` is a clip table with an entry at `j`.
pub open spec fn clip_entry_in_range(props: Seq<ActorProperty>, i: int, j: int) -> bool {
    match props[i] {
        ActorProperty::AnimationClips(m) => 0 <= j < m@.len(),
        _ => false,
    }
}

/// The path of clip-table entry `j` of property `i`.
pub open spec fn clip_path_of(props: Seq<ActorProperty>, i: int, j: int) -> Seq<char> {
    match props[i] {
        ActorProperty::AnimationClips(m) => m@[j].1@,
        _ => Seq::<char>::empty(),
    }
}

/// Whether some clip table among the properties maps to this path.
pub open spec fn clip_path_in(props: Seq<ActorProperty>, p: Seq<char>) -> bool {
    exists|i: int, j: int|
        0 <= i < props.len() && #[trigger] clip_entry_in_range(props, i, j) && clip_path_of(
            props,
            i,
            j,
        ) == p
}

/// The animation clip paths that must be loaded before actors referencing
/// these properties can spawn: every path a clip table maps a clip name to,
/// each exactly once.
#[verifier::loop_isolation(false)]
pub fn clip_paths_to_preload(props: &Vec<ActorProperty>) -> (r: Vec<String>)
    ensures
        // Sound: every collected path comes from some clip table.
        forall|k: int| 0 <= k < r@.len() ==> clip_path_in(props@, (#[trigger] r@[k])@),
        // Complete: every clip table entry's path is collected.
        forall|i: int, j: int|
            0 <= i < props@.len() && clip_entry_in_range(props@, i, j) ==> contains_name(
                r@,
                #[trigger] clip_path_of(props@, i, j),
            ),
        // Deduplicated.
        forall|k: int, l: int| 0 <= k < l < r@.len() ==> (#[trigger] r@[k])@ != (#[trigger] r@[l])@,
{
    let n = props.len();
    let mut out: Vec<String> = Vec::new();
    let mut i: usize = 0;
    while i < n
        invariant
            i <= n,
            forall|k: int| 0 <= k < out@.len() ==> clip_path_in(props@, (#[trigger] out@[k])@),
            forall|ii: int, j: int|
                0 <= ii < i && clip_entry_in_range(props@, ii, j) ==> contains_name(
                    out@,
                    #[trigger] clip_path_of(props@, ii, j),
                ),
            forall|k: int, l: int|
                0 <= k < l < out@.len() ==> (#[trigger] out@[k])@ != (#[trigger] out@[l])@,
        decreases n - i,
    {
        match &props[i] {
            ActorProperty::AnimationClips(m) => {
                let mlen = m.len();
                let mut j: usize = 0;
                while j < mlen
                    invariant
                        j <= mlen,
                        forall|k: int|
                            0 <= k < out@.len() ==> clip_path_in(props@, (#[trigger] out@[k])@),
                        forall|ii: int, jj: int|
                            0 <= ii < i && clip_entry_in_range(props@, ii, jj) ==> contains_name(
                                out@,
                                #[trigger] clip_path_of(props@, ii, jj),
                            ),
                        forall|jj: int|
                            0 <= jj < j ==> contains_name(
                                out@,
                                #[trigger] clip_path_of(props@, i as int, jj),
                            ),
                        forall|k: int, l: int|
                            0 <= k < l < out@.len() ==> (#[trigger] out@[k])@ != (
                            #[trigger] out@[l])@,
                    decreases mlen - j,
                {
                    if !contains_string(&out, &m[j].1) {
                        let ghost before = out@;
                        out.push(m[j].1.clone());
                        proof {
                            assert(forall|k: int|
                                0 <= k < before.len() ==> #[trigger] out@[k] == before[k]);
                            assert(clip_entry_in_range(props@, i as int, j as int));
                            assert(out@[out@.len() - 1]@ == clip_path_of(
                                props@,
                                i as int,
                                j as int,
                            ));
                            assert forall|ii: int, jj: int|
                                0 <= ii < i && clip_entry_in_range(props@, ii, jj)
                                    implies contains_name(
                                out@,
                                #[trigger] clip_path_of(props@, ii, jj),
                            ) by {
                                assert(contains_name(before, clip_path_of(props@, ii, jj)));
                                let w = choose|w: int|
                                    0 <= w < before.len() && (#[trigger] before[w])@
                                        == clip_path_of(props@, ii, jj);
                                assert(out@[w]@ == clip_path_of(props@, ii, jj));
                            }
                            assert forall|jj: int|
                                0 <= jj <= j implies contains_name(
                                out@,
                                #[trigger] clip_path_of(props@, i as int, jj),
                            ) by {
                                if jj < j {
                                    assert(contains_name(
                                        before,
                                        clip_path_of(props@, i as int, jj),
                                    ));
                                    let w = choose|w: int|
                                        0 <= w < before.len() && (#[trigger] before[w])@
                                            == clip_path_of(props@, i as int, jj);
                                    assert(out@[w]@ == clip_path_of(props@, i as int, jj));
                                }
                            }
                        }
                    } else {
                        proof {
                            assert(contains_name(out@, clip_path_of(props@, i as int, j as int)));
                        }
                    }
                    j = j + 1;
                }
            },
            _ => {},
        }
        i = i + 1;
    }
    out
}

/// Scene handles preloaded ahead of spawning, keyed by path. Handles are
/// plain identifiers for the asset layer; the animation clip table reuses the
/// same keyed shape.
#[derive(Debug)]
pub struct PreloadedActorAssets {
    pub scenes: Vec<(String, u64)>,
    pub animation_clips: AnimationClips,
}

/// A request to spawn an actor from a configuration handle at a transform.
#[derive(Clone, Copy, Debug)]
pub enum SpawnActor {
    WithTransform(u64, crate::mover::Transform),
}

} // verus!

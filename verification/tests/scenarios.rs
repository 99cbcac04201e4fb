use stealth_agents::actions::Action;
use stealth_agents::assets::GameAssets;
use stealth_agents::spawn::clip_paths_to_preload;
use stealth_agents::spawn::scene_paths_to_preload;
use stealth_agents::actions::ActionKind;
use stealth_agents::actions::Event;
use stealth_agents::actions::FaceDirectionAction;
use stealth_agents::actions::StopReason;
use stealth_agents::animation::Animating;
use stealth_agents::animation::AnimationClips;
use stealth_agents::animation::clip_to_play;
use stealth_agents::behavior::patrol_location;
use stealth_agents::behavior::BehaviorMachine;
use stealth_agents::game_state::GameState;
use stealth_agents::geom::Vec3I;
use stealth_agents::mover::AngularSpeed;
use stealth_agents::mover::LinearSpeed;
use stealth_agents::mover::Transform;
use stealth_agents::queue::QueueMode;
use stealth_agents::recurrence::Recurrence;
use stealth_agents::spawn::resolve_animation_clips;
use stealth_agents::spawn::spawn_actor_plan;
use stealth_agents::spawn::ActorConfig;
use stealth_agents::spawn::ActorProperty;
use stealth_agents::trigger::Trigger;
use stealth_agents::world::World;

fn spawn_default(world: &mut World, machine: Option<BehaviorMachine>) -> usize {
    world.spawn_agent(
        Transform { pos: Vec3I::new(0, 0, 0), yaw: 0 },
        LinearSpeed(1000),
        AngularSpeed(6400),
        machine,
    )
}

#[test]
fn patrol_idles_after_delay_and_fires_once() {
    let mut world = World::new(GameState::Gameplay);
    let idx = spawn_default(&mut world, Some(BehaviorMachine::new(100)));
    {
        let agent = &mut world.agents[idx];
        patrol_location(&mut agent.queue, &mut agent.body, &mut agent.log, 100);
        assert_eq!(agent.queue.mode, QueueMode::Executing);
        assert_eq!(agent.queue.pending.len(), 3);
    }
    // Tick 100 ms at a time. The idle animation starts immediately; the wait
    // finishes once at least 1000 ms have elapsed; the completion signal then
    // idles the queue with the done flag set.
    for _ in 0..11 {
        world.tick(100);
    }
    {
        let agent = &world.agents[idx];
        assert_eq!(agent.queue.mode, QueueMode::Idle);
        assert!(agent.body.done);
        let marker = agent.body.animating.as_ref().expect("idle animation playing");
        assert_eq!(marker.clip_name_string(), "idle");
        assert_eq!(
            agent.machine.as_ref().map(|m| m.transitions_fired),
            Some(0)
        );
    }
    // The next tick's behavior pass consumes the flag: the transition fires
    // exactly once and replans the patrol.
    world.tick(100);
    {
        let agent = &world.agents[idx];
        assert_eq!(
            agent.machine.as_ref().map(|m| m.transitions_fired),
            Some(1)
        );
        assert!(!agent.body.done);
        assert_eq!(agent.queue.mode, QueueMode::Executing);
    }
}

fn face(id: u64, yaw: i64) -> Action {
    Action { id, kind: ActionKind::FaceDirection(FaceDirectionAction::new(yaw)) }
}

#[test]
fn endless_spin_never_idles_until_canceled() {
    let mut world = World::new(GameState::Gameplay);
    let idx = spawn_default(&mut world, None);
    {
        let agent = &mut world.agents[idx];
        let spin = Action {
            id: 50,
            kind: ActionKind::Repeat {
                child: Box::new(Action {
                    id: 51,
                    kind: ActionKind::Sequence {
                        children: vec![
                            face(52, 1600),
                            face(53, 3200),
                            face(54, 4800),
                            face(55, 0),
                        ],
                        cursor: 0,
                    },
                }),
                recurrence: Recurrence::Forever,
                completed: 0,
                child_active: false,
            },
        };
        agent.queue.push(spin);
    }
    for _ in 0..400 {
        world.tick(50);
        assert_ne!(world.agents[idx].queue.mode, QueueMode::Idle);
        assert!(world.agents[idx].queue.running.is_some());
    }
    // The repeat has cycled: the same turn ids start over and over.
    let starts_of_first_turn = world.agents[idx]
        .log
        .iter()
        .filter(|e| **e == Event::Started(52))
        .count();
    assert!(starts_of_first_turn > 1, "spin did not cycle");
    // Walk up to a tick on which a turn is freshly started and still running.
    let mut safety = 0;
    loop {
        world.tick(50);
        let last = world.agents[idx].log.last();
        if matches!(last, Some(Event::Started(id)) if (52..=55).contains(id)) {
            break;
        }
        safety += 1;
        assert!(safety < 100, "no turn started while spinning");
    }
    // Cancel mid-flight: exactly one turn was running; only it receives the
    // cancellation, together with its enclosing sequence and repeat.
    let before = world.agents[idx].log.len();
    {
        let agent = &mut world.agents[idx];
        agent.queue.clear(&mut agent.body, &mut agent.log);
    }
    let agent = &world.agents[idx];
    let canceled: Vec<&Event> = agent.log[before..].iter().collect();
    let canceled_turns = canceled
        .iter()
        .filter(|e| {
            matches!(e, Event::Stopped(id, StopReason::Canceled) if (52..=55).contains(id))
        })
        .count();
    assert_eq!(canceled_turns, 1);
    assert!(canceled.contains(&&Event::Stopped(51, StopReason::Canceled)));
    assert!(canceled.contains(&&Event::Stopped(50, StopReason::Canceled)));
    assert_eq!(agent.queue.mode, QueueMode::Idle);
}

#[test]
fn game_state_broadcasts_pause_and_resume() {
    let mut world = World::new(GameState::Gameplay);
    let a = spawn_default(&mut world, None);
    let b = spawn_default(&mut world, None);
    world.agents[a].queue.push(Action {
        id: 1,
        kind: ActionKind::Wait(stealth_agents::actions::WaitAction::new(500)),
    });
    world.set_game_state(GameState::Paused);
    assert_eq!(world.agents[a].queue.mode, QueueMode::Paused);
    assert_eq!(world.agents[b].queue.mode, QueueMode::Paused);
    // An agent spawned while the game is frozen starts out paused.
    let c = spawn_default(&mut world, None);
    assert_eq!(world.agents[c].queue.mode, QueueMode::Paused);
    // Moving between two freezing states touches no queue.
    world.set_game_state(GameState::GameOver);
    assert_eq!(world.agents[c].queue.mode, QueueMode::Paused);
    world.set_game_state(GameState::Gameplay);
    assert_eq!(world.agents[a].queue.mode, QueueMode::Executing);
    assert_eq!(world.agents[b].queue.mode, QueueMode::Executing);
    assert_eq!(world.agents[c].queue.mode, QueueMode::Executing);
}

#[test]
fn trigger_spends_limited_uses() {
    let mut t = Trigger::new(Recurrence::Times(2));
    assert!(t.try_use());
    assert!(t.try_use());
    assert!(!t.try_use());
    assert!(!t.try_use());
    let mut evergreen = Trigger::new(Recurrence::Forever);
    for _ in 0..10 {
        assert!(evergreen.try_use());
    }
}

#[test]
fn animation_clip_lookup_lets_later_entries_overwrite() {
    let clips = AnimationClips(vec![
        ("idle".to_owned(), 11),
        ("walk".to_owned(), 12),
        ("idle".to_owned(), 13),
    ]);
    // Registering "idle" again overwrites the earlier handle.
    assert_eq!(clips.get(&"idle".to_owned()), Some(13));
    assert_eq!(clips.get(&"walk".to_owned()), Some(12));
    assert_eq!(clips.get(&"run".to_owned()), None);
    let marker = Animating::from_animation_clip_name("walk".to_owned());
    assert_eq!(clip_to_play(&marker, &clips), Some(12));
}

#[test]
fn spawn_plan_reads_configuration() {
    let config = ActorConfig(vec![
        ActorProperty::Guard,
        ActorProperty::Speed { linear_speed: 700, angular_speed: 3200 },
        ActorProperty::Vision,
        ActorProperty::Scene("guard.glb".to_owned()),
        ActorProperty::Speed { linear_speed: 900, angular_speed: 6400 },
    ]);
    let plan = spawn_actor_plan(&config);
    assert!(plan.guard);
    assert!(plan.vision);
    assert!(!plan.player);
    assert!(!plan.hearing);
    // The later speed wins, as repeated insertions overwrite.
    assert_eq!(plan.speed, Some((900, 6400)));
    assert_eq!(plan.scene.as_deref(), Some("guard.glb"));
}

#[test]
fn clip_resolution_reports_missing_path() {
    let preloaded = AnimationClips(vec![
        ("clips/idle.anim".to_owned(), 1),
        ("clips/walk.anim".to_owned(), 2),
    ]);
    let clips = vec![
        ("idle".to_owned(), "clips/idle.anim".to_owned()),
        ("walk".to_owned(), "clips/walk.anim".to_owned()),
    ];
    let resolved = resolve_animation_clips(&clips, &preloaded).expect("all clips preloaded");
    assert_eq!(resolved.len(), 2);
    assert_eq!(resolved[0], ("idle".to_owned(), 1));
    assert_eq!(resolved[1], ("walk".to_owned(), 2));
    let missing = vec![("run".to_owned(), "clips/run.anim".to_owned())];
    assert_eq!(resolve_animation_clips(&missing, &preloaded), Err(0));
}

#[test]
fn scene_preload_list_is_deduplicated() {
    let props = vec![
        ActorProperty::Guard,
        ActorProperty::Scene("guard.glb".to_owned()),
        ActorProperty::Vision,
        ActorProperty::Scene("dog.glb".to_owned()),
        ActorProperty::Scene("guard.glb".to_owned()),
    ];
    let paths = scene_paths_to_preload(&props);
    assert_eq!(paths, vec!["guard.glb".to_owned(), "dog.glb".to_owned()]);
}

#[test]
fn footsteps_resolve_through_game_assets() {
    let config = ActorConfig(vec![ActorProperty::Footsteps {
        sound_wave: "grass".to_owned(),
    }]);
    let plan = spawn_actor_plan(&config);
    let assets = GameAssets {
        blueprints: vec![],
        emotes: vec![("happy".to_owned(), 9)],
        sound_waves: vec![("grass".to_owned(), 4), ("gravel".to_owned(), 5)],
    };
    let sound = plan
        .footsteps
        .as_ref()
        .and_then(|name| assets.sound_wave(name));
    assert_eq!(sound, Some(4));
    assert_eq!(assets.emote(&"happy".to_owned()), Some(9));
    assert_eq!(assets.sound_wave(&"mud".to_owned()), None);
}

#[test]
fn clip_preload_list_is_deduplicated() {
    let props = vec![
        ActorProperty::Guard,
        ActorProperty::AnimationClips(vec![
            ("idle".to_owned(), "clips/idle.anim".to_owned()),
            ("walk".to_owned(), "clips/walk.anim".to_owned()),
        ]),
        ActorProperty::Scene("guard.glb".to_owned()),
        ActorProperty::AnimationClips(vec![
            ("rest".to_owned(), "clips/idle.anim".to_owned()),
            ("run".to_owned(), "clips/run.anim".to_owned()),
        ]),
    ];
    let paths = clip_paths_to_preload(&props);
    assert_eq!(
        paths,
        vec![
            "clips/idle.anim".to_owned(),
            "clips/walk.anim".to_owned(),
            "clips/run.anim".to_owned(),
        ]
    );
}

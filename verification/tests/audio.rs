use brainworms::audio::{
    command_by_file_name, order_by_file_name, prison_step, route_command, AudioCommand,
    AudioPrisonOrder, Jingle, JingleRegistry, Jukebox, PrisonAction, RequestKind, RouterAction,
    SoundGroup, TicketedAudioRequestData, WorkerSlot, DEFAULT_VOLUME_BITS,
};

fn by_name(n: &str) -> TicketedAudioRequestData {
    TicketedAudioRequestData::ByName(n.to_string())
}

fn targeted(n: &str, ticket: u128) -> TicketedAudioRequestData {
    TicketedAudioRequestData::Targeted(n.to_string(), ticket)
}

fn registry_with(name: &str, group: SoundGroup) -> JingleRegistry<()> {
    let mut reg: JingleRegistry<()> = JingleRegistry::new();
    reg.register(Jingle { name: name.to_string(), samples: (), len: 4, group });
    reg
}

#[test]
fn groups_start_at_the_default_volume() {
    let reg: JingleRegistry<()> = JingleRegistry::new();
    assert_eq!(reg.volume_of(&SoundGroup::BGM), Some(DEFAULT_VOLUME_BITS));
    assert_eq!(reg.volume_of(&SoundGroup::SFX), Some(DEFAULT_VOLUME_BITS));
    assert_eq!(reg.volume_of(&SoundGroup::Voice("narrator".to_string())), None);
    assert_eq!(f32::from_bits(DEFAULT_VOLUME_BITS), 0.1_f32);
}

#[test]
fn registering_and_unregistering_a_jingle() {
    let mut reg = registry_with("boom", SoundGroup::SFX);
    assert!(reg.is_registered("boom"));
    assert!(!reg.is_registered("bang"));
    assert_eq!(reg.find_jingle("boom"), Some(0));
    reg.unregister("boom");
    assert!(!reg.is_registered("boom"));
    assert_eq!(reg.find_jingle("boom"), None);
}

#[test]
fn registering_again_replaces_the_jingle() {
    let mut reg = registry_with("boom", SoundGroup::SFX);
    reg.register(Jingle { name: "boom".to_string(), samples: (), len: 9, group: SoundGroup::BGM });
    assert_eq!(reg.jingles.len(), 1);
    assert_eq!(reg.jingles[0].len, 9);
    assert!(reg.jingles[0].group.same(&SoundGroup::BGM));
}

#[test]
fn setting_a_volume_is_read_back() {
    let mut reg: JingleRegistry<()> = JingleRegistry::new();
    let half = 0.5_f32.to_bits();
    reg.set_volume(SoundGroup::Voice("narrator".to_string()), half);
    assert_eq!(reg.volume_of(&SoundGroup::Voice("narrator".to_string())), Some(half));
    assert_eq!(reg.volume_of(&SoundGroup::BGM), Some(DEFAULT_VOLUME_BITS));
    reg.set_volume(SoundGroup::BGM, 0);
    assert_eq!(reg.volume_of(&SoundGroup::BGM), Some(0));
}

#[test]
fn router_forwards_playback_requests() {
    let actions = route_command(AudioCommand::Play(by_name("a")));
    assert_eq!(actions.len(), 1);
    assert!(matches!(&actions[0], RouterAction::ToBackend(AudioPrisonOrder::Play(TicketedAudioRequestData::ByName(n))) if n == "a"));
    let actions = route_command(AudioCommand::Pause(targeted("a", 3)));
    assert!(matches!(&actions[0], RouterAction::ToBackend(AudioPrisonOrder::Pause(TicketedAudioRequestData::Targeted(n, 3))) if n == "a"));
}

#[test]
fn router_stops_an_instance_by_pausing_then_releasing() {
    let actions = route_command(AudioCommand::Stop(targeted("a", 7)));
    assert_eq!(actions.len(), 2);
    assert!(matches!(&actions[0], RouterAction::ToBackend(AudioPrisonOrder::Pause(TicketedAudioRequestData::Targeted(n, 7))) if n == "a"));
    assert!(matches!(&actions[1], RouterAction::ToBackend(AudioPrisonOrder::Drop(TicketedAudioRequestData::Targeted(n, 7))) if n == "a"));
}

#[test]
fn router_handles_drops_prebakes_and_death() {
    let actions = route_command(AudioCommand::Drop(by_name("a")));
    assert!(matches!(&actions[..], [RouterAction::Unregister(n)] if n == "a"));
    let actions = route_command(AudioCommand::Drop(TicketedAudioRequestData::ByPath("/x/y.ogg".to_string())));
    assert!(matches!(&actions[..], [RouterAction::ResendByFileName(RequestKind::Drop, p)] if p == "/x/y.ogg"));
    let actions = route_command(AudioCommand::Drop(targeted("a", 1)));
    assert!(actions.is_empty());
    let actions = route_command(AudioCommand::Prebake(by_name("a"), SoundGroup::BGM));
    assert!(actions.is_empty());
    let actions = route_command(AudioCommand::Prebake(TicketedAudioRequestData::ByPath("/x/y.ogg".to_string()), SoundGroup::BGM));
    assert!(matches!(&actions[..], [RouterAction::Prebake(p, SoundGroup::BGM)] if p == "/x/y.ogg"));
    let actions = route_command(AudioCommand::Die);
    assert!(matches!(&actions[..], [RouterAction::ToBackend(AudioPrisonOrder::Die), RouterAction::Shutdown]));
}

#[test]
fn requests_by_path_go_by_file_name() {
    match command_by_file_name(RequestKind::Pause, "/music/theme.ogg") {
        Some(AudioCommand::Pause(TicketedAudioRequestData::ByName(n))) => assert_eq!(n, "theme.ogg"),
        other => panic!("unexpected {:?}", other),
    }
    assert!(command_by_file_name(RequestKind::Stop, "/").is_none());
    assert!(command_by_file_name(RequestKind::Stop, "..").is_none());
    match order_by_file_name(RequestKind::Stop, "sfx/boom.wav") {
        Some(AudioPrisonOrder::Drop(TicketedAudioRequestData::ByName(n))) => assert_eq!(n, "boom.wav"),
        other => panic!("unexpected {:?}", other),
    }
}

#[test]
fn commands_become_backend_orders() {
    assert!(matches!(AudioPrisonOrder::from_command(AudioCommand::Stop(targeted("a", 2))), AudioPrisonOrder::Drop(TicketedAudioRequestData::Targeted(_, 2))));
    assert!(matches!(AudioPrisonOrder::from_command(AudioCommand::SetVolume(SoundGroup::SFX, 5)), AudioPrisonOrder::SetVolume(SoundGroup::SFX, 5)));
    assert!(matches!(AudioPrisonOrder::from_command(AudioCommand::Die), AudioPrisonOrder::Die));
}

#[test]
fn playing_then_releasing_an_instance() {
    let mut reg = registry_with("theme", SoundGroup::BGM);
    let mut jukebox = Jukebox::new();
    let actions = prison_step(&mut jukebox, &mut reg, AudioPrisonOrder::Play(targeted("theme", 1)));
    assert!(matches!(&actions[..], [PrisonAction::StartStream(n, 1, v)] if n == "theme" && *v == DEFAULT_VOLUME_BITS));
    assert!(jukebox.contains(&"theme".to_string(), 1));
    let actions = prison_step(&mut jukebox, &mut reg, AudioPrisonOrder::Drop(targeted("theme", 1)));
    assert!(matches!(&actions[..], [PrisonAction::DropStream(n, 1)] if n == "theme"));
    assert!(!jukebox.contains(&"theme".to_string(), 1));
    assert!(jukebox.instances.is_empty());
}

#[test]
fn pausing_acts_only_on_playing_instances() {
    let mut reg = registry_with("theme", SoundGroup::BGM);
    let mut jukebox = Jukebox::new();
    prison_step(&mut jukebox, &mut reg, AudioPrisonOrder::Play(targeted("theme", 1)));
    let actions = prison_step(&mut jukebox, &mut reg, AudioPrisonOrder::Pause(targeted("theme", 1)));
    assert!(matches!(&actions[..], [PrisonAction::StopStream(n, 1)] if n == "theme"));
    let actions = prison_step(&mut jukebox, &mut reg, AudioPrisonOrder::Pause(targeted("theme", 2)));
    assert!(actions.is_empty());
    let actions = prison_step(&mut jukebox, &mut reg, AudioPrisonOrder::UnPause(targeted("theme", 1)));
    assert!(matches!(&actions[..], [PrisonAction::ResumeStream(n, 1)] if n == "theme"));
    let actions = prison_step(&mut jukebox, &mut reg, AudioPrisonOrder::Pause(by_name("theme")));
    assert!(actions.is_empty());
    assert_eq!(jukebox.instances.len(), 1);
}

#[test]
fn releasing_by_name_ends_every_instance() {
    let mut reg = registry_with("theme", SoundGroup::BGM);
    reg.register(Jingle { name: "boom".to_string(), samples: (), len: 1, group: SoundGroup::SFX });
    let mut jukebox = Jukebox::new();
    prison_step(&mut jukebox, &mut reg, AudioPrisonOrder::Play(targeted("theme", 1)));
    prison_step(&mut jukebox, &mut reg, AudioPrisonOrder::Play(targeted("boom", 2)));
    prison_step(&mut jukebox, &mut reg, AudioPrisonOrder::Play(targeted("theme", 3)));
    let actions = prison_step(&mut jukebox, &mut reg, AudioPrisonOrder::Drop(by_name("theme")));
    assert!(matches!(&actions[..], [PrisonAction::DropStreams(n)] if n == "theme"));
    assert_eq!(jukebox.instances.len(), 1);
    assert!(jukebox.contains(&"boom".to_string(), 2));
}

#[test]
fn a_group_volume_reaches_its_playing_instances() {
    let mut reg = registry_with("theme", SoundGroup::BGM);
    reg.register(Jingle { name: "boom".to_string(), samples: (), len: 1, group: SoundGroup::SFX });
    let mut jukebox = Jukebox::new();
    prison_step(&mut jukebox, &mut reg, AudioPrisonOrder::Play(targeted("theme", 1)));
    prison_step(&mut jukebox, &mut reg, AudioPrisonOrder::Play(targeted("boom", 2)));
    let loud = 1.0_f32.to_bits();
    let actions = prison_step(&mut jukebox, &mut reg, AudioPrisonOrder::SetVolume(SoundGroup::SFX, loud));
    assert!(matches!(&actions[..], [PrisonAction::SetStreamVolume(n, 2, v)] if n == "boom" && *v == loud));
    assert_eq!(reg.volume_of(&SoundGroup::SFX), Some(loud));
    let actions = prison_step(&mut jukebox, &mut reg, AudioPrisonOrder::Play(targeted("boom", 4)));
    assert!(matches!(&actions[..], [PrisonAction::StartStream(n, 4, v)] if n == "boom" && *v == loud));
}

#[test]
fn the_backend_halts_on_die() {
    let mut reg: JingleRegistry<()> = JingleRegistry::new();
    let mut jukebox = Jukebox::new();
    let actions = prison_step(&mut jukebox, &mut reg, AudioPrisonOrder::Die);
    assert!(matches!(&actions[..], [PrisonAction::Halt]));
}

#[test]
fn each_replacement_starts_a_younger_worker() {
    let mut slot = WorkerSlot::new();
    assert_eq!(slot.generation, 0);
    let first = slot.replace_worker();
    assert_eq!(first.generation, 1);
    assert!(!first.retire_previous);
    let second = slot.replace_worker();
    assert_eq!(second.generation, 2);
    assert!(second.retire_previous);
    assert_eq!(slot, WorkerSlot { generation: 2, live: true });
}

#[test]
fn sound_groups_compare_by_kind_and_name() {
    assert!(SoundGroup::BGM.same(&SoundGroup::BGM));
    assert!(!SoundGroup::BGM.same(&SoundGroup::SFX));
    assert!(SoundGroup::Voice("a".to_string()).same(&SoundGroup::Voice("a".to_string())));
    assert!(!SoundGroup::Voice("a".to_string()).same(&SoundGroup::Voice("b".to_string())));
}

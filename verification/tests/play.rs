use brainworms::play::{
    define_play, BrainwormsData, DebugPickingDoodad, Definitions, Implementations,
    LinacLabScene, Playables, StageStatus, LINAC_LAB_UUID, OVERVIEW_CAM_INFO, THERAC_CAM_INFO,
};

#[test]
fn the_play_starts_in_the_linac_lab() {
    let play = define_play();
    assert_eq!(play.first_playable, LINAC_LAB_UUID);
    assert_eq!(LINAC_LAB_UUID, 0x517e70e9_9f6d_48fe_a685_e24482d6d409);
    assert_eq!(play.playable_names.len(), 1);
    assert_eq!(play.playable_names[0].0, "LinacLab");
    assert_eq!(play.uuid_of(&"LinacLab".to_string()), Some(LINAC_LAB_UUID));
    assert_eq!(play.uuid_of(&"Curtain".to_string()), None);
    let p = play.playable(LINAC_LAB_UUID).expect("the lab is there");
    assert_eq!(p.playable_uuid(), LINAC_LAB_UUID);
    assert_eq!(p.playable_name(), "LinacLab");
    assert!(play.playable(1).is_none());
}

#[test]
fn the_lab_opens_on_the_overview() {
    let play = define_play();
    let (name, info) = play.opening_camera().expect("a starting camera");
    assert_eq!(name, "overview");
    assert_eq!(info, OVERVIEW_CAM_INFO);
    let floats: Vec<f32> = info.iter().map(|b| f32::from_bits(*b)).collect();
    assert_eq!(floats, vec![-6.217338_f32, 3.8491437, 5.883971, -0.40870047, 5.76257]);
}

#[test]
fn the_lab_definition() {
    let mut scene = LinacLabScene::default();
    assert_eq!(scene.uuid, 0);
    assert_eq!(scene.starting_cam_info(), None);
    scene.define_scene();
    let Definitions::SceneDefinition(d) = &scene.definition;
    assert_eq!(d.stage, ("LinacLab".to_string(), "assets/gltf_scenes".to_string()));
    assert_eq!(d.actors, vec![("Midori".to_string(), "assets/inochi2d-models".to_string())]);
    assert_eq!(d.props, vec![("fried_egg".to_string(), "lfs_scam/props".to_string())]);
    assert_eq!(d.cameras.len(), 5);
    assert_eq!(d.camera(&"therac".to_string()), Some(THERAC_CAM_INFO));
    assert_eq!(d.camera(&"kitchen".to_string()), None);
    assert_eq!(f32::from_bits(THERAC_CAM_INFO[0]), -2.580962_f32);
    assert_eq!(scene.starting_cam_info(), Some(OVERVIEW_CAM_INFO));
}

#[test]
fn loaded_parts_are_handed_to_their_scene() {
    let mut play = define_play();
    let mut playable = play.playables.remove(&LINAC_LAB_UUID).expect("the lab");
    match &mut playable {
        Playables::LinacLabScene(s) => s.implement_scene(),
    }
    play.playables.insert(LINAC_LAB_UUID, playable);
    play.attach_stage(LINAC_LAB_UUID, "LinacLab".to_string());
    play.attach_actress(LINAC_LAB_UUID, "Midori".to_string());
    play.attach_actress(LINAC_LAB_UUID, "Midori".to_string());
    let Playables::LinacLabScene(s) = play.playable(LINAC_LAB_UUID).expect("the lab");
    match &s.implementation {
        Some(Implementations::SceneImplementation(imp)) => {
            assert!(matches!(&imp.stage3d, StageStatus::Loaded(n) if n == "LinacLab"));
            assert_eq!(imp.actresses, vec!["Midori".to_string()]);
            assert_eq!(imp.cameras, vec!["overview".to_string()]);
        }
        None => panic!("the lab is not set up"),
    }
}

#[test]
fn odds_and_ends() {
    assert_eq!(BrainwormsData::default(), BrainwormsData);
    assert_ne!(DebugPickingDoodad::TheRay, DebugPickingDoodad::TheColliderShape);
}

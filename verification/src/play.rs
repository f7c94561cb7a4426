//! The play: its scenes, their definitions, and the bookkeeping of what has
//! been loaded for them.
use std::collections::HashMap;
use vstd::prelude::*;

verus! {

broadcast use vstd::std_specs::hash::group_hash_axioms;

/// A camera placement: x, y, z, pitch and yaw, each as the bit pattern of a
/// 32-bit float.
pub type CamInfo = [u32; 5];

/// The overview of the linac lab.
pub const OVERVIEW_CAM_INFO: CamInfo = [0xC0C6F46Fu32, 0x4076585Fu32, 0x40BC497Eu32, 0xBED14130u32, 0x40B866F9u32];

/// The view of the PDP-11.
pub const PDP11_CAM_INFO: CamInfo = [0xC06EB5AAu32, 0x4090632Au32, 0xBDD2FA6Cu32, 0xBEE5BC34u32, 0x3CD00FCEu32];

/// The view of the VT100 terminal.
pub const VT100_CAM_INFO: CamInfo = [0xC0A23385u32, 0x3FAA5F99u32, 0xC067C777u32, 0xBE9F1486u32, 0x40C86717u32];

/// The view of the treatment machine.
pub const THERAC_CAM_INFO: CamInfo = [0xC0252E7Bu32, 0x40379E97u32, 0x40383D4Fu32, 0xBE8CA5E4u32, 0x40B3DBF9u32];

/// The view of the toilet.
pub const TOITOI_CAM_INFO: CamInfo = [0xC0DA0F41u32, 0x402F68B6u32, 0x3F36028Bu32, 0xBE36FE04u32, 0x3BF21443u32];

/// The identifier of the linac lab scene, as a 128-bit number.
pub const LINAC_LAB_UUID: u128 = 0x517e70e9_9f6d_48fe_a685_e24482d6d409u128;

/// Data that the game shares with its scenes; it holds nothing yet.
#[derive(Clone, Copy, PartialEq, Eq, Structural, Debug, Default)]
pub struct BrainwormsData;

/// Which debugging aid to draw for mouse picking.
#[derive(Clone, Copy, PartialEq, Eq, Structural, Debug)]
pub enum DebugPickingDoodad {
    TheRay,
    TheColliderShape,
}

/// What a scene is made of: its stage (name and directory), its actors and
/// props (name and directory each), the camera it starts with, and its
/// named cameras.
#[derive(Debug)]
pub struct SceneDefinition {
    pub stage: (String, String),
    pub actors: Vec<(String, String)>,
    pub props: Vec<(String, String)>,
    pub start_cam: String,
    pub cameras: Vec<(String, CamInfo)>,
}

/// A named pair of strings, as character sequences.
pub type NamedPath = (Seq<char>, Seq<char>);

/// The content of a scene definition.
pub struct SceneModel {
    pub stage: NamedPath,
    pub actors: Seq<NamedPath>,
    pub props: Seq<NamedPath>,
    pub start_cam: Seq<char>,
    pub cameras: Seq<(Seq<char>, Seq<u32>)>,
}

pub open spec fn pair_view(p: (String, String)) -> NamedPath {
    (p.0@, p.1@)
}

pub open spec fn camera_view(c: (String, CamInfo)) -> (Seq<char>, Seq<u32>) {
    (c.0@, c.1@)
}

impl View for SceneDefinition {
    type V = SceneModel;

    open spec fn view(&self) -> SceneModel {
        SceneModel {
            stage: pair_view(self.stage),
            actors: self.actors@.map_values(|p: (String, String)| pair_view(p)),
            props: self.props@.map_values(|p: (String, String)| pair_view(p)),
            start_cam: self.start_cam@,
            cameras: self.cameras@.map_values(|c: (String, CamInfo)| camera_view(c)),
        }
    }
}

/// The placement of the first camera named `name` in a list of cameras.
pub open spec fn camera_in(cameras: Seq<(Seq<char>, Seq<u32>)>, name: Seq<char>) -> Option<Seq<u32>>
    decreases cameras.len(),
{
    if cameras.len() == 0 {
        None
    } else if cameras[0].0 == name {
        Some(cameras[0].1)
    } else {
        camera_in(cameras.drop_first(), name)
    }
}

fn same_text(a: &String, b: &String) -> (r: bool)
    ensures
        r == (a@ == b@),
{
    a.eq(b)
}

impl SceneDefinition {
    /// An empty definition: no stage, actors, props or cameras.
    pub fn empty() -> (d: SceneDefinition)
        ensures
            d@.stage == (Seq::<char>::empty(), Seq::<char>::empty()),
            d@.actors.len() == 0,
            d@.props.len() == 0,
            d@.start_cam.len() == 0,
            d@.cameras.len() == 0,
    {
        let d = SceneDefinition {
            stage: (String::new(), String::new()),
            actors: Vec::new(),
            props: Vec::new(),
            start_cam: String::new(),
            cameras: Vec::new(),
        };
        assert(d@.actors =~= Seq::empty());
        assert(d@.props =~= Seq::empty());
        assert(d@.cameras =~= Seq::empty());
        d
    }

    /// The placement of the camera named `name`, if the scene has one.
    pub fn camera(&self, name: &String) -> (c: Option<CamInfo>)
        ensures
            match c {
                Some(info) => camera_in(self@.cameras, name@) == Some(info@),
                None => camera_in(self@.cameras, name@) is None,
            },
    {
        let mut i: usize = 0;
        assert(self@.cameras.skip(0) =~= self@.cameras);
        while i < self.cameras.len()
            invariant
                i <= self.cameras@.len(),
                camera_in(self@.cameras, name@) == camera_in(self@.cameras.skip(i as int), name@),
            decreases self.cameras@.len() - i,
        {
            let ghost rest = self@.cameras.skip(i as int);
            assert(rest[0] == camera_view(self.cameras@[i as int]));
            if same_text(&self.cameras[i].0, name) {
                return Some(self.cameras[i].1);
            }
            assert(rest.drop_first() =~= self@.cameras.skip(i + 1));
            i = i + 1;
        }
        None
    }

    /// The placement of the camera that the scene starts with, if the scene
    /// has a camera of that name.
    pub fn starting_cam_info(&self) -> (c: Option<CamInfo>)
        ensures
            match c {
                Some(info) => camera_in(self@.cameras, self@.start_cam) == Some(info@),
                None => camera_in(self@.cameras, self@.start_cam) is None,
            },
    {
        self.camera(&self.start_cam)
    }
}

/// How a playable is defined.
#[derive(Debug)]
pub enum Definitions {
    SceneDefinition(SceneDefinition),
}

impl Definitions {
    /// The scene definition inside.
    pub open spec fn scene_def(self) -> SceneDefinition {
        match self {
            Definitions::SceneDefinition(d) => d,
        }
    }

    /// The scene definition inside.
    pub fn scene(&self) -> (d: &SceneDefinition)
        ensures
            *d == self.scene_def(),
    {
        match self {
            Definitions::SceneDefinition(d) => d,
        }
    }
}

impl Default for Definitions {
    fn default() -> (d: Definitions)
        ensures
            d.scene_def()@.stage == (Seq::<char>::empty(), Seq::<char>::empty()),
            d.scene_def()@.actors.len() == 0,
            d.scene_def()@.props.len() == 0,
            d.scene_def()@.cameras.len() == 0,
            d.scene_def()@.start_cam.len() == 0,
    {
        Definitions::SceneDefinition(SceneDefinition::empty())
    }
}

/// Whether a scene's 3D stage is still loading or has arrived, under the
/// stage's name.
#[derive(Debug)]
pub enum StageStatus {
    Loading,
    Loaded(String),
}

/// What has been set up for a scene while it plays: the state of its
/// stage, the names of the actresses that have arrived, and the names of
/// its cameras.
#[derive(Debug)]
pub struct SceneImplementation {
    pub stage3d: StageStatus,
    pub actresses: Vec<String>,
    pub cameras: Vec<String>,
}

/// How a playable is set up while it plays.
#[derive(Debug)]
pub enum Implementations {
    SceneImplementation(SceneImplementation),
}

/// The scene of the linear accelerator lab.
#[derive(Debug)]
pub struct LinacLabScene {
    pub uuid: u128,
    pub name: String,
    pub definition: Definitions,
    pub implementation: Option<Implementations>,
}

/// The cameras of the linac lab, in the order they are listed.
pub open spec fn linac_lab_cameras() -> Seq<(Seq<char>, Seq<u32>)> {
    seq![
        ("overview"@, OVERVIEW_CAM_INFO@),
        ("pdp11"@, PDP11_CAM_INFO@),
        ("vt100"@, VT100_CAM_INFO@),
        ("therac"@, THERAC_CAM_INFO@),
        ("toitoi"@, TOITOI_CAM_INFO@),
    ]
}

/// The definition of the linac lab.
pub open spec fn linac_lab_definition(d: SceneModel) -> bool {
    &&& d.stage == ("LinacLab"@, "assets/gltf_scenes"@)
    &&& d.actors == seq![("Midori"@, "assets/inochi2d-models"@)]
    &&& d.props == seq![("fried_egg"@, "lfs_scam/props"@)]
    &&& d.start_cam == "overview"@
    &&& d.cameras == linac_lab_cameras()
}

fn named(name: &str, path: &str) -> (p: (String, String))
    ensures
        pair_view(p) == (name@, path@),
{
    (name.to_owned(), path.to_owned())
}

/// The names of the actresses that have arrived.
pub open spec fn actress_names(imp: SceneImplementation) -> Seq<Seq<char>> {
    imp.actresses@.map_values(|s: String| s@)
}

/// `after` is `before`, which was set up to play, with its stage arrived
/// under the name `stage`.
pub open spec fn stage_attached(before: LinacLabScene, after: LinacLabScene, stage: Seq<char>) -> bool {
    &&& after.uuid == before.uuid
    &&& after.name == before.name
    &&& after.definition == before.definition
    &&& match (before.implementation, after.implementation) {
        (Some(Implementations::SceneImplementation(b)), Some(Implementations::SceneImplementation(a))) => {
            &&& a.stage3d matches StageStatus::Loaded(n) && n@ == stage
            &&& a.actresses == b.actresses
            &&& a.cameras == b.cameras
        },
        _ => false,
    }
}

/// The actresses known after `name` arrives: an actress arriving again
/// takes the place of her earlier arrival, so each name is listed once.
pub open spec fn with_actress(names: Seq<Seq<char>>, name: Seq<char>) -> Seq<Seq<char>> {
    if names.contains(name) {
        names
    } else {
        names.push(name)
    }
}

/// `after` is `before`, which was set up to play, with the actress `name`
/// arrived.
pub open spec fn actress_attached(before: LinacLabScene, after: LinacLabScene, name: Seq<char>) -> bool {
    &&& after.uuid == before.uuid
    &&& after.name == before.name
    &&& after.definition == before.definition
    &&& match (before.implementation, after.implementation) {
        (Some(Implementations::SceneImplementation(b)), Some(Implementations::SceneImplementation(a))) => {
            &&& a.stage3d == b.stage3d
            &&& actress_names(a) == with_actress(actress_names(b), name)
            &&& a.cameras == b.cameras
        },
        _ => false,
    }
}

/// Whether `name` is among the names of `v`.
fn contains_name(v: &Vec<String>, name: &String) -> (r: bool)
    ensures
        r == v@.map_values(|s: String| s@).contains(name@),
{
    let ghost names = v@.map_values(|s: String| s@);
    let mut i: usize = 0;
    while i < v.len()
        invariant
            i <= v@.len(),
            names == v@.map_values(|s: String| s@),
            forall|j: int| 0 <= j < i ==> names[j] != name@,
        decreases v@.len() - i,
    {
        if same_text(&v[i], name) {
            assert(names[i as int] == name@);
            return true;
        }
        i = i + 1;
    }
    false
}

/// Each named camera of the linac lab has the placement named after it,
/// and the lab starts at the overview.
pub proof fn lemma_linac_lab_cameras(d: SceneModel)
    requires
        linac_lab_definition(d),
    ensures
        camera_in(d.cameras, "overview"@) == Some(OVERVIEW_CAM_INFO@),
        camera_in(d.cameras, "pdp11"@) == Some(PDP11_CAM_INFO@),
        camera_in(d.cameras, "vt100"@) == Some(VT100_CAM_INFO@),
        camera_in(d.cameras, "therac"@) == Some(THERAC_CAM_INFO@),
        camera_in(d.cameras, "toitoi"@) == Some(TOITOI_CAM_INFO@),
        camera_in(d.cameras, d.start_cam) == Some(OVERVIEW_CAM_INFO@),
{
    reveal_strlit("overview");
    reveal_strlit("pdp11");
    reveal_strlit("vt100");
    reveal_strlit("therac");
    reveal_strlit("toitoi");
    assert("pdp11"@.len() != "overview"@.len());
    assert("vt100"@.len() != "overview"@.len());
    assert("vt100"@[0] != "pdp11"@[0]);
    assert("therac"@.len() != "overview"@.len());
    assert("therac"@.len() != "pdp11"@.len());
    assert("therac"@.len() != "vt100"@.len());
    assert("toitoi"@.len() != "overview"@.len());
    assert("toitoi"@.len() != "pdp11"@.len());
    assert("toitoi"@.len() != "vt100"@.len());
    assert("toitoi"@[1] != "therac"@[1]);
    lemma_camera_in_list(d.cameras, "overview"@, 0);
    lemma_camera_in_list(d.cameras, "pdp11"@, 1);
    lemma_camera_in_list(d.cameras, "vt100"@, 2);
    lemma_camera_in_list(d.cameras, "therac"@, 3);
    lemma_camera_in_list(d.cameras, "toitoi"@, 4);
}

/// A camera is found at the first position that carries its name.
proof fn lemma_camera_in_list(cameras: Seq<(Seq<char>, Seq<u32>)>, name: Seq<char>, i: int)
    requires
        0 <= i < cameras.len(),
        cameras[i].0 == name,
        forall|j: int| 0 <= j < i ==> cameras[j].0 != name,
    ensures
        camera_in(cameras, name) == Some(cameras[i].1),
    decreases i,
{
    if i > 0 {
        lemma_camera_in_list(cameras.drop_first(), name, i - 1);
    }
}

impl Default for LinacLabScene {
    fn default() -> (s: LinacLabScene)
        ensures
            s.uuid == 0,
            s.name@.len() == 0,
            s.definition.scene_def()@.stage == (Seq::<char>::empty(), Seq::<char>::empty()),
            s.definition.scene_def()@.actors.len() == 0,
            s.definition.scene_def()@.props.len() == 0,
            s.definition.scene_def()@.cameras.len() == 0,
            s.definition.scene_def()@.start_cam.len() == 0,
            s.implementation is None,
    {
        LinacLabScene {
            uuid: 0,
            name: String::new(),
            definition: Definitions::default(),
            implementation: None,
        }
    }
}

impl LinacLabScene {
    /// Fills in the lab: its identifier, its name, and its stage, actor,
    /// prop and cameras, starting with the overview.
    pub fn define_scene(&mut self)
        ensures
            final(self).uuid == LINAC_LAB_UUID,
            final(self).name@ == "LinacLab"@,
            linac_lab_definition(final(self).definition.scene_def()@),
            camera_in(final(self).definition.scene_def()@.cameras, "overview"@) == Some(OVERVIEW_CAM_INFO@),
            camera_in(final(self).definition.scene_def()@.cameras, "pdp11"@) == Some(PDP11_CAM_INFO@),
            camera_in(final(self).definition.scene_def()@.cameras, "vt100"@) == Some(VT100_CAM_INFO@),
            camera_in(final(self).definition.scene_def()@.cameras, "therac"@) == Some(THERAC_CAM_INFO@),
            camera_in(final(self).definition.scene_def()@.cameras, "toitoi"@) == Some(TOITOI_CAM_INFO@),
            final(self).implementation == old(self).implementation,
    {
        self.uuid = LINAC_LAB_UUID;
        let mut cameras: Vec<(String, CamInfo)> = Vec::new();
        cameras.push(("overview".to_owned(), OVERVIEW_CAM_INFO));
        cameras.push(("pdp11".to_owned(), PDP11_CAM_INFO));
        cameras.push(("vt100".to_owned(), VT100_CAM_INFO));
        cameras.push(("therac".to_owned(), THERAC_CAM_INFO));
        cameras.push(("toitoi".to_owned(), TOITOI_CAM_INFO));
        let mut actors: Vec<(String, String)> = Vec::new();
        actors.push(named("Midori", "assets/inochi2d-models"));
        let mut props: Vec<(String, String)> = Vec::new();
        props.push(named("fried_egg", "lfs_scam/props"));
        let d = SceneDefinition {
            stage: named("LinacLab", "assets/gltf_scenes"),
            actors,
            props,
            start_cam: "overview".to_owned(),
            cameras,
        };
        assert(d@.actors =~= seq![("Midori"@, "assets/inochi2d-models"@)]);
        assert(d@.props =~= seq![("fried_egg"@, "lfs_scam/props"@)]);
        assert(d@.cameras =~= linac_lab_cameras());
        self.definition = Definitions::SceneDefinition(d);
        self.name = "LinacLab".to_owned();
        proof {
            lemma_linac_lab_cameras(self.definition.scene_def()@);
        }
    }

    /// The scene's identifier.
    pub fn scene_uuid(&self) -> (u: u128)
        ensures
            u == self.uuid,
    {
        self.uuid
    }

    /// The scene's name.
    pub fn scene_name(&self) -> (n: &str)
        ensures
            n@ == self.name@,
    {
        self.name.as_str()
    }

    /// The placement of the camera the scene starts with, if it has one.
    pub fn starting_cam_info(&self) -> (c: Option<CamInfo>)
        ensures
            match c {
                Some(info) => camera_in(self.definition.scene_def()@.cameras, self.definition.scene_def()@.start_cam)
                    == Some(info@),
                None => camera_in(self.definition.scene_def()@.cameras, self.definition.scene_def()@.start_cam) is None,
            },
    {
        self.definition.scene().starting_cam_info()
    }

    /// Sets the scene up to play: its stage is loading, no actress has
    /// arrived yet, and its one camera is the one it starts with.
    pub fn implement_scene(&mut self)
        ensures
            final(self).uuid == old(self).uuid,
            final(self).name@ == old(self).name@,
            final(self).definition == old(self).definition,
            match final(self).implementation {
                Some(Implementations::SceneImplementation(imp)) => {
                    &&& imp.stage3d is Loading
                    &&& imp.actresses@.len() == 0
                    &&& imp.cameras@.len() == 1
                    &&& imp.cameras@[0]@ == old(self).definition.scene_def()@.start_cam
                },
                None => false,
            },
    {
        let start = self.definition.scene().start_cam.clone();
        let mut cameras: Vec<String> = Vec::new();
        cameras.push(start);
        self.implementation = Some(
            Implementations::SceneImplementation(
                SceneImplementation { stage3d: StageStatus::Loading, actresses: Vec::new(), cameras },
            ),
        );
    }

    /// Records that the scene's stage has arrived under the given name; the
    /// scene must be set up to play.
    pub fn attach_stage(&mut self, stage: String)
        requires
            old(self).implementation is Some,
        ensures
            stage_attached(*old(self), *final(self), stage@),
    {
        if let Some(Implementations::SceneImplementation(imp)) = &mut self.implementation {
            imp.stage3d = StageStatus::Loaded(stage);
        }
    }

    /// Records that an actress has arrived; the scene must be set up to play.
    /// An actress that arrives again takes the place of her earlier arrival.
    pub fn attach_actress(&mut self, name: String)
        requires
            old(self).implementation is Some,
        ensures
            actress_attached(*old(self), *final(self), name@),
    {
        if let Some(Implementations::SceneImplementation(imp)) = &mut self.implementation {
            if !contains_name(&imp.actresses, &name) {
                imp.actresses.push(name);
                assert(imp.actresses@.map_values(|s: String| s@) =~= old(self).implementation->0->0.actresses@.map_values(|s: String| s@).push(name@));
            }
        }
    }
}

/// Something that can be played: for now, only scenes.
#[derive(Debug)]
pub enum Playables {
    LinacLabScene(LinacLabScene),
}

impl Playables {
    /// The scene inside.
    pub open spec fn scene(self) -> LinacLabScene {
        match self {
            Playables::LinacLabScene(s) => s,
        }
    }

    /// The playable's identifier.
    pub fn playable_uuid(&self) -> (u: u128)
        ensures
            u == self.scene().uuid,
    {
        match self {
            Playables::LinacLabScene(s) => s.scene_uuid(),
        }
    }

    /// The playable's name.
    pub fn playable_name(&self) -> (n: &str)
        ensures
            n@ == self.scene().name@,
    {
        match self {
            Playables::LinacLabScene(s) => s.scene_name(),
        }
    }

    /// Fills in the playable's definition.
    pub fn define_playable(&mut self)
        ensures
            final(self).scene().uuid == LINAC_LAB_UUID,
            final(self).scene().name@ == "LinacLab"@,
            linac_lab_definition(final(self).scene().definition.scene_def()@),
    {
        match self {
            Playables::LinacLabScene(s) => s.define_scene(),
        }
    }

    /// The placement of the camera the playable starts with, if it has one.
    pub fn starting_cam_info(&self) -> (c: Option<CamInfo>)
        ensures
            match c {
                Some(info) => camera_in(
                    self.scene().definition.scene_def()@.cameras,
                    self.scene().definition.scene_def()@.start_cam,
                ) == Some(info@),
                None => camera_in(
                    self.scene().definition.scene_def()@.cameras,
                    self.scene().definition.scene_def()@.start_cam,
                ) is None,
            },
    {
        match self {
            Playables::LinacLabScene(s) => s.starting_cam_info(),
        }
    }
}

/// The whole play: the playable to start with, the playables by
/// identifier, and the identifiers by name.
#[derive(Debug)]
pub struct Play {
    pub first_playable: u128,
    pub playables: HashMap<u128, Playables>,
    pub playable_names: Vec<(String, u128)>,
}

/// The identifier listed first under `name`.
pub open spec fn uuid_named(names: Seq<(Seq<char>, u128)>, name: Seq<char>) -> Option<u128>
    decreases names.len(),
{
    if names.len() == 0 {
        None
    } else if names[0].0 == name {
        Some(names[0].1)
    } else {
        uuid_named(names.drop_first(), name)
    }
}

impl Play {
    /// The names listed in the play, as character sequences.
    pub open spec fn names(self) -> Seq<(Seq<char>, u128)> {
        self.playable_names@.map_values(|e: (String, u128)| (e.0@, e.1))
    }

    /// The play is consistent: the playable to start with exists, every
    /// playable is filed under its own identifier, and every listed name
    /// leads to a playable of that name.
    pub open spec fn well_formed(self) -> bool {
        &&& self.playables@.contains_key(self.first_playable)
        &&& forall|u: u128| #[trigger]
            self.playables@.contains_key(u) ==> self.playables@[u].scene().uuid == u
        &&& forall|i: int|
            0 <= i < self.names().len() ==> self.playables@.contains_key(#[trigger] self.names()[i].1)
                && self.playables@[self.names()[i].1].scene().name@ == self.names()[i].0
    }

    /// The playable with the given identifier, if the play has one.
    pub fn playable(&self, uuid: u128) -> (p: Option<&Playables>)
        ensures
            match p {
                Some(p) => self.playables@.contains_key(uuid) && *p == self.playables@[uuid],
                None => !self.playables@.contains_key(uuid),
            },
    {
        self.playables.get(&uuid)
    }

    /// The identifier of the playable with the given name, if the play
    /// lists one.
    pub fn uuid_of(&self, name: &String) -> (u: Option<u128>)
        ensures
            u == uuid_named(self.names(), name@),
    {
        let mut i: usize = 0;
        assert(self.names().skip(0) =~= self.names());
        while i < self.playable_names.len()
            invariant
                i <= self.playable_names@.len(),
                uuid_named(self.names(), name@) == uuid_named(self.names().skip(i as int), name@),
            decreases self.playable_names@.len() - i,
        {
            let ghost rest = self.names().skip(i as int);
            assert(rest[0] == (self.playable_names@[i as int].0@, self.playable_names@[i as int].1));
            if same_text(&self.playable_names[i].0, name) {
                return Some(self.playable_names[i].1);
            }
            assert(rest.drop_first() =~= self.names().skip(i + 1));
            i = i + 1;
        }
        None
    }

    /// The camera that the play opens with: the starting camera of its
    /// first playable, by name and placement. `None` where the first
    /// playable is missing or lacks a camera of that name.
    pub fn opening_camera(&self) -> (c: Option<(String, CamInfo)>)
        ensures
            match c {
                Some((name, info)) => {
                    &&& self.playables@.contains_key(self.first_playable)
                    &&& name@ == self.playables@[self.first_playable].scene().definition.scene_def()@.start_cam
                    &&& camera_in(
                        self.playables@[self.first_playable].scene().definition.scene_def()@.cameras,
                        name@,
                    ) == Some(info@)
                },
                None => !self.playables@.contains_key(self.first_playable) || camera_in(
                    self.playables@[self.first_playable].scene().definition.scene_def()@.cameras,
                    self.playables@[self.first_playable].scene().definition.scene_def()@.start_cam,
                ) is None,
            },
    {
        match self.playables.get(&self.first_playable) {
            None => None,
            Some(p) => {
                let d = match p {
                    Playables::LinacLabScene(s) => s.definition.scene(),
                };
                match d.starting_cam_info() {
                    Some(info) => Some((d.start_cam.clone(), info)),
                    None => None,
                }
            },
        }
    }

    /// Hands a loaded stage to the scene it belongs to, which must be in the
    /// play and set up to play.
    pub fn attach_stage(&mut self, scene: u128, stage: String)
        requires
            old(self).playables@.contains_key(scene),
            old(self).playables@[scene].scene().implementation is Some,
        ensures
            final(self).first_playable == old(self).first_playable,
            final(self).playable_names == old(self).playable_names,
            final(self).playables@.dom() == old(self).playables@.dom(),
            forall|u: u128|
                u != scene && old(self).playables@.contains_key(u) ==> final(self).playables@[u]
                    == old(self).playables@[u],
            stage_attached(
                old(self).playables@[scene].scene(),
                final(self).playables@[scene].scene(),
                stage@,
            ),
            old(self).well_formed() ==> final(self).well_formed(),
    {
        match self.playables.remove(&scene) {
            None => {},
            Some(p) => {
                let mut s = match p {
                    Playables::LinacLabScene(s) => s,
                };
                s.attach_stage(stage);
                self.playables.insert(scene, Playables::LinacLabScene(s));
                assert(self.playables@.dom() =~= old(self).playables@.dom());
            },
        }
    }
}

impl Play {
    /// Hands a loaded actress to the scene she belongs to, which must be in
    /// the play and set up to play.
    pub fn attach_actress(&mut self, scene: u128, name: String)
        requires
            old(self).playables@.contains_key(scene),
            old(self).playables@[scene].scene().implementation is Some,
        ensures
            final(self).first_playable == old(self).first_playable,
            final(self).playable_names == old(self).playable_names,
            final(self).playables@.dom() == old(self).playables@.dom(),
            forall|u: u128|
                u != scene && old(self).playables@.contains_key(u) ==> final(self).playables@[u]
                    == old(self).playables@[u],
            actress_attached(
                old(self).playables@[scene].scene(),
                final(self).playables@[scene].scene(),
                name@,
            ),
            old(self).well_formed() ==> final(self).well_formed(),
    {
        match self.playables.remove(&scene) {
            None => {},
            Some(p) => {
                let mut s = match p {
                    Playables::LinacLabScene(s) => s,
                };
                s.attach_actress(name);
                self.playables.insert(scene, Playables::LinacLabScene(s));
                assert(self.playables@.dom() =~= old(self).playables@.dom());
            },
        }
    }
}

/// The play as the game defines it: the linac lab alone, which it starts
/// with.
pub fn define_play() -> (play: Play)
    ensures
        play.well_formed(),
        uuid_named(play.names(), "LinacLab"@) == Some(play.first_playable),
        play.first_playable == LINAC_LAB_UUID,
        play.names() == seq![("LinacLab"@, LINAC_LAB_UUID)],
        play.playables@.dom() == set![LINAC_LAB_UUID],
        play.playables@[LINAC_LAB_UUID].scene().uuid == LINAC_LAB_UUID,
        play.playables@[LINAC_LAB_UUID].scene().name@ == "LinacLab"@,
        linac_lab_definition(play.playables@[LINAC_LAB_UUID].scene().definition.scene_def()@),
        play.playables@[LINAC_LAB_UUID].scene().implementation is None,
{
    let mut linac_lab_scene = LinacLabScene::default();
    linac_lab_scene.define_scene();
    let mut playables: HashMap<u128, Playables> = HashMap::new();
    let mut playable_names: Vec<(String, u128)> = Vec::new();
    playable_names.push((linac_lab_scene.name.clone(), linac_lab_scene.uuid));
    let first_playable = linac_lab_scene.uuid;
    playables.insert(linac_lab_scene.uuid, Playables::LinacLabScene(linac_lab_scene));
    let play = Play { first_playable, playables, playable_names };
    assert(play.names() =~= seq![("LinacLab"@, LINAC_LAB_UUID)]);
    assert(play.playables@.dom() =~= set![LINAC_LAB_UUID]);
    play
}

} // verus!

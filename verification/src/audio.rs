//! Audio requests: the commands a game sends, how the router forwards them,
//! and what the playback backend does with its orders.
use vstd::prelude::*;

verus! {

/// Mixing groups with a volume of their own.
#[derive(Debug)]
pub enum SoundGroup {
    BGM,
    SFX,
    Voice(String),
}

/// The mathematical content of a group.
pub enum GroupModel {
    BGM,
    SFX,
    Voice(Seq<char>),
}

impl View for SoundGroup {
    type V = GroupModel;

    open spec fn view(&self) -> GroupModel {
        match self {
            SoundGroup::BGM => GroupModel::BGM,
            SoundGroup::SFX => GroupModel::SFX,
            SoundGroup::Voice(v) => GroupModel::Voice(v@),
        }
    }
}

impl SoundGroup {
    /// Whether two groups are the same.
    pub fn same(&self, other: &SoundGroup) -> (r: bool)
        ensures
            r == (self@ == other@),
    {
        match (self, other) {
            (SoundGroup::BGM, SoundGroup::BGM) => true,
            (SoundGroup::SFX, SoundGroup::SFX) => true,
            (SoundGroup::Voice(a), SoundGroup::Voice(b)) => *a == *b,
            _ => false,
        }
    }

    /// A copy of this group.
    pub fn duplicate(&self) -> (g: SoundGroup)
        ensures
            g@ == self@,
    {
        match self {
            SoundGroup::BGM => SoundGroup::BGM,
            SoundGroup::SFX => SoundGroup::SFX,
            SoundGroup::Voice(v) => SoundGroup::Voice(v.clone()),
        }
    }
}

/// Which sound a request is about: a file to render, a rendered jingle by
/// name, or one playing instance of a jingle, identified by its ticket.
#[derive(Debug)]
pub enum TicketedAudioRequestData {
    ByPath(String),
    ByName(String),
    Targeted(String, u128),
}

/// The mathematical content of a request.
pub enum RequestModel {
    ByPath(Seq<char>),
    ByName(Seq<char>),
    Targeted(Seq<char>, u128),
}

impl View for TicketedAudioRequestData {
    type V = RequestModel;

    open spec fn view(&self) -> RequestModel {
        match self {
            TicketedAudioRequestData::ByPath(p) => RequestModel::ByPath(p@),
            TicketedAudioRequestData::ByName(n) => RequestModel::ByName(n@),
            TicketedAudioRequestData::Targeted(n, u) => RequestModel::Targeted(n@, *u),
        }
    }
}

impl TicketedAudioRequestData {
    /// A copy of this request.
    pub fn duplicate(&self) -> (r: TicketedAudioRequestData)
        ensures
            r@ == self@,
    {
        match self {
            TicketedAudioRequestData::ByPath(p) => TicketedAudioRequestData::ByPath(p.clone()),
            TicketedAudioRequestData::ByName(n) => TicketedAudioRequestData::ByName(n.clone()),
            TicketedAudioRequestData::Targeted(n, u) => TicketedAudioRequestData::Targeted(
                n.clone(),
                *u,
            ),
        }
    }
}

/// What a game asks of the audio system. Volumes are single-precision floats
/// carried as their bit patterns.
#[derive(Debug)]
pub enum AudioCommand {
    /// Render the file at the request's path and keep it, in a group.
    Prebake(TicketedAudioRequestData, SoundGroup),
    Play(TicketedAudioRequestData),
    Pause(TicketedAudioRequestData),
    UnPause(TicketedAudioRequestData),
    /// Forget the rendered data of a jingle.
    Drop(TicketedAudioRequestData),
    /// Stop playing and release the playback.
    Stop(TicketedAudioRequestData),
    SetVolume(SoundGroup, u32),
    Die,
}

/// The mathematical content of a command.
pub enum CommandModel {
    Prebake(RequestModel, GroupModel),
    Play(RequestModel),
    Pause(RequestModel),
    UnPause(RequestModel),
    Drop(RequestModel),
    Stop(RequestModel),
    SetVolume(GroupModel, u32),
    Die,
}

impl View for AudioCommand {
    type V = CommandModel;

    open spec fn view(&self) -> CommandModel {
        match self {
            AudioCommand::Prebake(r, g) => CommandModel::Prebake(r@, g@),
            AudioCommand::Play(r) => CommandModel::Play(r@),
            AudioCommand::Pause(r) => CommandModel::Pause(r@),
            AudioCommand::UnPause(r) => CommandModel::UnPause(r@),
            AudioCommand::Drop(r) => CommandModel::Drop(r@),
            AudioCommand::Stop(r) => CommandModel::Stop(r@),
            AudioCommand::SetVolume(g, v) => CommandModel::SetVolume(g@, *v),
            AudioCommand::Die => CommandModel::Die,
        }
    }
}

/// What the playback backend is told to do.
#[derive(Debug)]
pub enum AudioPrisonOrder {
    Play(TicketedAudioRequestData),
    Pause(TicketedAudioRequestData),
    UnPause(TicketedAudioRequestData),
    /// Release playback but keep the rendered data.
    Drop(TicketedAudioRequestData),
    SetVolume(SoundGroup, u32),
    Die,
}

/// The mathematical content of an order.
pub enum OrderModel {
    Play(RequestModel),
    Pause(RequestModel),
    UnPause(RequestModel),
    Drop(RequestModel),
    SetVolume(GroupModel, u32),
    Die,
}

impl View for AudioPrisonOrder {
    type V = OrderModel;

    open spec fn view(&self) -> OrderModel {
        match self {
            AudioPrisonOrder::Play(r) => OrderModel::Play(r@),
            AudioPrisonOrder::Pause(r) => OrderModel::Pause(r@),
            AudioPrisonOrder::UnPause(r) => OrderModel::UnPause(r@),
            AudioPrisonOrder::Drop(r) => OrderModel::Drop(r@),
            AudioPrisonOrder::SetVolume(g, v) => OrderModel::SetVolume(g@, *v),
            AudioPrisonOrder::Die => OrderModel::Die,
        }
    }
}

/// The order a command becomes: a stop becomes a release of playback, the
/// others keep their meaning. Prebaking and dropping rendered data have no
/// order.
pub open spec fn order_of_command(c: CommandModel) -> OrderModel
    recommends
        !(c is Prebake),
        !(c is Drop),
{
    match c {
        CommandModel::Play(r) => OrderModel::Play(r),
        CommandModel::Pause(r) => OrderModel::Pause(r),
        CommandModel::UnPause(r) => OrderModel::UnPause(r),
        CommandModel::Stop(r) => OrderModel::Drop(r),
        CommandModel::SetVolume(g, v) => OrderModel::SetVolume(g, v),
        _ => OrderModel::Die,
    }
}

impl AudioPrisonOrder {
    /// The order a command becomes. Prebaking has no order, and dropping
    /// rendered data means something else than releasing playback, so both
    /// are excluded.
    pub fn from_command(cmd: AudioCommand) -> (o: AudioPrisonOrder)
        requires
            !(cmd is Prebake),
            !(cmd is Drop),
        ensures
            o@ == order_of_command(cmd@),
    {
        match cmd {
            AudioCommand::Play(d) => AudioPrisonOrder::Play(d),
            AudioCommand::Pause(d) => AudioPrisonOrder::Pause(d),
            AudioCommand::UnPause(d) => AudioPrisonOrder::UnPause(d),
            AudioCommand::Stop(d) => AudioPrisonOrder::Drop(d),
            AudioCommand::SetVolume(g, v) => AudioPrisonOrder::SetVolume(g, v),
            _ => AudioPrisonOrder::Die,
        }
    }
}

// ---------------------------------------------------------------------------
// Requests by path
// ---------------------------------------------------------------------------
/// The final component that `std::path::Path::file_name` finds in a path.
pub uninterp spec fn path_file_name(p: Seq<char>) -> Option<Seq<char>>;

/// Calls `std::path::Path::file_name` on the path and converts the component
/// to a string. The contract only names the result: which component counts
/// as the file name is not stated.
#[verifier::external_body]
fn file_name_of(p: &str) -> (r: Option<String>)
    ensures
        match r {
            Some(n) => path_file_name(p@) == Some(n@),
            None => path_file_name(p@) is None,
        },
{
    std::path::Path::new(p).file_name().map(|n| n.to_string_lossy().into_owned())
}

/// Requests that may name a jingle by the path of its file.
#[derive(Clone, Copy, PartialEq, Eq, Structural, Debug)]
pub enum RequestKind {
    Pause,
    UnPause,
    Drop,
    Stop,
}

/// The command of the given kind about a jingle named by its file name.
pub open spec fn command_by_name(kind: RequestKind, name: Seq<char>) -> CommandModel {
    match kind {
        RequestKind::Pause => CommandModel::Pause(RequestModel::ByName(name)),
        RequestKind::UnPause => CommandModel::UnPause(RequestModel::ByName(name)),
        RequestKind::Drop => CommandModel::Drop(RequestModel::ByName(name)),
        RequestKind::Stop => CommandModel::Stop(RequestModel::ByName(name)),
    }
}

/// The order of the given kind about a jingle named by its file name; a stop
/// is a release of playback.
pub open spec fn order_by_name(kind: RequestKind, name: Seq<char>) -> OrderModel {
    match kind {
        RequestKind::Pause => OrderModel::Pause(RequestModel::ByName(name)),
        RequestKind::UnPause => OrderModel::UnPause(RequestModel::ByName(name)),
        RequestKind::Drop => OrderModel::Drop(RequestModel::ByName(name)),
        RequestKind::Stop => OrderModel::Drop(RequestModel::ByName(name)),
    }
}

fn named_request(kind: RequestKind, name: String) -> (c: AudioCommand)
    ensures
        c@ == command_by_name(kind, name@),
{
    match kind {
        RequestKind::Pause => AudioCommand::Pause(TicketedAudioRequestData::ByName(name)),
        RequestKind::UnPause => AudioCommand::UnPause(TicketedAudioRequestData::ByName(name)),
        RequestKind::Drop => AudioCommand::Drop(TicketedAudioRequestData::ByName(name)),
        RequestKind::Stop => AudioCommand::Stop(TicketedAudioRequestData::ByName(name)),
    }
}

/// The command that re-issues a request made by path, naming the jingle by
/// the file name of the path instead; `None` where the path has no file
/// name (the request cannot be served then).
pub fn command_by_file_name(kind: RequestKind, path: &str) -> (c: Option<AudioCommand>)
    ensures
        match path_file_name(path@) {
            Some(n) => c matches Some(cmd) && cmd@ == command_by_name(kind, n),
            None => c is None,
        },
{
    match file_name_of(path) {
        Some(n) => Some(named_request(kind, n)),
        None => None,
    }
}

/// The order that re-issues a backend order made by path, naming the jingle
/// by the file name of the path instead; `None` where the path has no file
/// name.
pub fn order_by_file_name(kind: RequestKind, path: &str) -> (o: Option<AudioPrisonOrder>)
    ensures
        match path_file_name(path@) {
            Some(n) => o matches Some(ord) && ord@ == order_by_name(kind, n),
            None => o is None,
        },
{
    match file_name_of(path) {
        Some(n) => {
            let r = TicketedAudioRequestData::ByName(n);
            Some(
                match kind {
                    RequestKind::Pause => AudioPrisonOrder::Pause(r),
                    RequestKind::UnPause => AudioPrisonOrder::UnPause(r),
                    _ => AudioPrisonOrder::Drop(r),
                },
            )
        },
        None => None,
    }
}

// ---------------------------------------------------------------------------
// The router
// ---------------------------------------------------------------------------
/// One thing the router does with a command.
#[derive(Debug)]
pub enum RouterAction {
    /// Hand an order to the playback backend.
    ToBackend(AudioPrisonOrder),
    /// Render the file at this path and register it in this group.
    Prebake(String, SoundGroup),
    /// Forget the rendered data of the jingle with this name.
    Unregister(String),
    /// Re-issue the request by the file name of this path.
    ResendByFileName(RequestKind, String),
    /// Wait for the backend to end, and stop routing.
    Shutdown,
}

/// The mathematical content of a router action.
pub enum RouterActionModel {
    ToBackend(OrderModel),
    Prebake(Seq<char>, GroupModel),
    Unregister(Seq<char>),
    ResendByFileName(RequestKind, Seq<char>),
    Shutdown,
}

impl View for RouterAction {
    type V = RouterActionModel;

    open spec fn view(&self) -> RouterActionModel {
        match self {
            RouterAction::ToBackend(o) => RouterActionModel::ToBackend(o@),
            RouterAction::Prebake(p, g) => RouterActionModel::Prebake(p@, g@),
            RouterAction::Unregister(n) => RouterActionModel::Unregister(n@),
            RouterAction::ResendByFileName(k, p) => RouterActionModel::ResendByFileName(*k, p@),
            RouterAction::Shutdown => RouterActionModel::Shutdown,
        }
    }
}

/// The models of a sequence of router actions.
pub open spec fn router_action_models(v: Seq<RouterAction>) -> Seq<RouterActionModel> {
    v.map_values(|a: RouterAction| a@)
}

/// What the router does with a command, in order. Misdirected requests
/// (prebaking by name, dropping one playing instance) are only reported,
/// and do nothing.
pub open spec fn route_spec(c: CommandModel) -> Seq<RouterActionModel> {
    match c {
        CommandModel::Prebake(RequestModel::ByPath(p), g) => seq![
            RouterActionModel::Prebake(p, g),
        ],
        CommandModel::Prebake(_, _) => seq![],
        CommandModel::Play(r) => seq![RouterActionModel::ToBackend(OrderModel::Play(r))],
        CommandModel::Pause(r) => seq![RouterActionModel::ToBackend(OrderModel::Pause(r))],
        CommandModel::UnPause(r) => seq![RouterActionModel::ToBackend(OrderModel::UnPause(r))],
        CommandModel::Drop(RequestModel::ByPath(p)) => seq![
            RouterActionModel::ResendByFileName(RequestKind::Drop, p),
        ],
        CommandModel::Drop(RequestModel::ByName(n)) => seq![RouterActionModel::Unregister(n)],
        CommandModel::Drop(RequestModel::Targeted(_, _)) => seq![],
        CommandModel::Stop(RequestModel::ByPath(p)) => seq![
            RouterActionModel::ResendByFileName(RequestKind::Stop, p),
        ],
        CommandModel::Stop(r) => seq![
            RouterActionModel::ToBackend(OrderModel::Pause(r)),
            RouterActionModel::ToBackend(OrderModel::Drop(r)),
        ],
        CommandModel::SetVolume(g, v) => seq![
            RouterActionModel::ToBackend(OrderModel::SetVolume(g, v)),
        ],
        CommandModel::Die => seq![
            RouterActionModel::ToBackend(OrderModel::Die),
            RouterActionModel::Shutdown,
        ],
    }
}

/// What the router does with one command.
pub fn route_command(cmd: AudioCommand) -> (actions: Vec<RouterAction>)
    ensures
        router_action_models(actions@) == route_spec(cmd@),
{
    let mut actions: Vec<RouterAction> = Vec::new();
    match cmd {
        AudioCommand::Prebake(tard, group) => match tard {
            TicketedAudioRequestData::ByPath(p) => {
                actions.push(RouterAction::Prebake(p, group));
            },
            _ => {},
        },
        AudioCommand::Play(tard) => {
            actions.push(RouterAction::ToBackend(AudioPrisonOrder::Play(tard)));
        },
        AudioCommand::Pause(tard) => {
            actions.push(RouterAction::ToBackend(AudioPrisonOrder::Pause(tard)));
        },
        AudioCommand::UnPause(tard) => {
            actions.push(RouterAction::ToBackend(AudioPrisonOrder::UnPause(tard)));
        },
        AudioCommand::Drop(tard) => match tard {
            TicketedAudioRequestData::ByPath(p) => {
                actions.push(RouterAction::ResendByFileName(RequestKind::Drop, p));
            },
            TicketedAudioRequestData::ByName(n) => {
                actions.push(RouterAction::Unregister(n));
            },
            TicketedAudioRequestData::Targeted(_, _) => {},
        },
        AudioCommand::Stop(tard) => match tard {
            TicketedAudioRequestData::ByPath(p) => {
                actions.push(RouterAction::ResendByFileName(RequestKind::Stop, p));
            },
            clean_one => {
                let copy = clean_one.duplicate();
                actions.push(RouterAction::ToBackend(AudioPrisonOrder::Pause(copy)));
                actions.push(
                    RouterAction::ToBackend(
                        AudioPrisonOrder::from_command(AudioCommand::Stop(clean_one)),
                    ),
                );
            },
        },
        AudioCommand::SetVolume(group, volume) => {
            actions.push(
                RouterAction::ToBackend(
                    AudioPrisonOrder::from_command(AudioCommand::SetVolume(group, volume)),
                ),
            );
        },
        AudioCommand::Die => {
            actions.push(RouterAction::ToBackend(AudioPrisonOrder::from_command(AudioCommand::Die)));
            actions.push(RouterAction::Shutdown);
        },
    }
    assert(router_action_models(actions@) =~= route_spec(cmd@));
    actions
}

// ---------------------------------------------------------------------------
// Rendered jingles and group volumes
// ---------------------------------------------------------------------------
/// A rendered jingle: its name, its sample data, its length in frames and
/// the group it plays in.
#[derive(Debug)]
pub struct Jingle<S> {
    pub name: String,
    pub samples: S,
    pub len: usize,
    pub group: SoundGroup,
}

/// The rendered jingles and the volume of each group. Lookups take the first
/// entry with a given key; registering replaces that entry.
#[derive(Debug)]
pub struct JingleRegistry<S> {
    pub jingles: Vec<Jingle<S>>,
    pub volume: Vec<(SoundGroup, u32)>,
}

/// Bit pattern of the single-precision float 0.1, the volume groups start with.
pub const DEFAULT_VOLUME_BITS: u32 = 0x3DCC_CCCDu32;

/// The names of a sequence of jingles.
pub open spec fn jingle_names<S>(v: Seq<Jingle<S>>) -> Seq<Seq<char>> {
    v.map_values(|j: Jingle<S>| j.name@)
}

/// The groups of a sequence of volume settings.
pub open spec fn volume_groups(v: Seq<(SoundGroup, u32)>) -> Seq<GroupModel> {
    v.map_values(|e: (SoundGroup, u32)| e.0@)
}

/// The first position at or after `i` whose key is `k`, or the length.
pub open spec fn first_key<K>(keys: Seq<K>, k: K, i: int) -> int
    decreases keys.len() - i,
{
    if 0 <= i < keys.len() {
        if keys[i] == k {
            i
        } else {
            first_key(keys, k, i + 1)
        }
    } else {
        keys.len() as int
    }
}

pub proof fn lemma_first_key_bounds<K>(keys: Seq<K>, k: K, i: int)
    requires
        0 <= i <= keys.len(),
    ensures
        i <= first_key(keys, k, i) <= keys.len(),
        first_key(keys, k, i) < keys.len() ==> keys[first_key(keys, k, i)] == k,
        forall|j: int| i <= j < first_key(keys, k, i) ==> keys[j] != k,
    decreases keys.len() - i,
{
    if i < keys.len() && keys[i] != k {
        lemma_first_key_bounds(keys, k, i + 1);
    }
}

pub proof fn lemma_first_key_absent<K>(keys: Seq<K>, k: K, i: int)
    requires
        0 <= i <= keys.len(),
        forall|j: int| i <= j < keys.len() ==> keys[j] != k,
    ensures
        first_key(keys, k, i) == keys.len(),
    decreases keys.len() - i,
{
    if i < keys.len() {
        lemma_first_key_absent(keys, k, i + 1);
    }
}

/// Whether a jingle with this name is registered.
pub open spec fn registered<S>(reg: JingleRegistry<S>, name: Seq<char>) -> bool {
    jingle_names(reg.jingles@).contains(name)
}

/// The registered jingle with this name.
pub open spec fn jingle_named<S>(reg: JingleRegistry<S>, name: Seq<char>) -> Jingle<S> {
    reg.jingles@[first_key(jingle_names(reg.jingles@), name, 0)]
}

/// No two rendered jingles share a name and no group has two volumes: the
/// registry keys its jingles by name and its volumes by group.
pub open spec fn registry_well_formed<S>(reg: JingleRegistry<S>) -> bool {
    &&& jingle_names(reg.jingles@).no_duplicates()
    &&& volume_groups(reg.volume@).no_duplicates()
}

proof fn lemma_push_fresh_keeps_distinct<K>(keys: Seq<K>, x: K)
    requires
        keys.no_duplicates(),
        !keys.contains(x),
    ensures
        keys.push(x).no_duplicates(),
{
    assert forall|i: int, j: int| 0 <= i < j < keys.push(x).len() implies keys.push(x)[i]
        != keys.push(x)[j] by {
        if j == keys.len() {
            assert(keys.push(x)[i] == keys[i]);
        } else {
            assert(keys.push(x)[i] == keys[i] && keys.push(x)[j] == keys[j]);
        }
    }
}

proof fn lemma_remove_keeps_distinct<K>(keys: Seq<K>, idx: int)
    requires
        keys.no_duplicates(),
        0 <= idx < keys.len(),
    ensures
        keys.remove(idx).no_duplicates(),
{
    let r = keys.remove(idx);
    assert forall|i: int, j: int| 0 <= i < j < r.len() implies r[i] != r[j] by {
        let a = if i < idx { i } else { i + 1 };
        let b = if j < idx { j } else { j + 1 };
        assert(r[i] == keys[a] && r[j] == keys[b]);
    }
}

/// The volume set for a group, if any.
pub open spec fn group_volume<S>(reg: JingleRegistry<S>, g: GroupModel) -> Option<u32> {
    let k = first_key(volume_groups(reg.volume@), g, 0);
    if k < reg.volume@.len() {
        Some(reg.volume@[k].1)
    } else {
        None
    }
}

impl<S> JingleRegistry<S> {
    /// No jingle, and both music and effects at volume 0.1.
    pub fn new() -> (reg: JingleRegistry<S>)
        ensures
            registry_well_formed(reg),
            reg.jingles@.len() == 0,
            volume_groups(reg.volume@) == seq![GroupModel::BGM, GroupModel::SFX],
            reg.volume@[0].1 == DEFAULT_VOLUME_BITS,
            reg.volume@[1].1 == DEFAULT_VOLUME_BITS,
    {
        let mut volume: Vec<(SoundGroup, u32)> = Vec::new();
        volume.push((SoundGroup::BGM, DEFAULT_VOLUME_BITS));
        volume.push((SoundGroup::SFX, DEFAULT_VOLUME_BITS));
        assert(volume_groups(volume@) =~= seq![GroupModel::BGM, GroupModel::SFX]);
        let reg = JingleRegistry { jingles: Vec::new(), volume };
        assert(jingle_names(reg.jingles@) =~= Seq::<Seq<char>>::empty());
        reg
    }

    /// The position of the jingle with this name.
    pub fn find_jingle(&self, name: &str) -> (r: Option<usize>)
        ensures
            match r {
                Some(i) => i as int == first_key(jingle_names(self.jingles@), name@, 0) && i
                    < self.jingles@.len(),
                None => !registered(*self, name@),
            },
    {
        let n = self.jingles.len();
        let mut i: usize = 0;
        let ghost names = jingle_names(self.jingles@);
        let target = String::from_str(name);
        while i < n
            invariant
                target@ == name@,
                n == self.jingles@.len(),
                names == jingle_names(self.jingles@),
                i <= n,
                forall|j: int| 0 <= j < i ==> names[j] != name@,
            decreases n - i,
        {
            assert(names[i as int] == self.jingles@[i as int].name@);
            if self.jingles[i].name == target {
                proof {
                    lemma_first_key_bounds(names, name@, 0);
                }
                return Some(i);
            }
            i = i + 1;
        }
        None
    }

    /// Whether a jingle with this name is registered.
    pub fn is_registered(&self, name: &str) -> (r: bool)
        ensures
            r == registered(*self, name@),
    {
        match self.find_jingle(name) {
            Some(i) => {
                proof {
                    lemma_first_key_bounds(jingle_names(self.jingles@), name@, 0);
                }
                assert(jingle_names(self.jingles@)[i as int] == name@);
                true
            },
            None => false,
        }
    }

    /// Registers a rendered jingle, replacing the one with the same name.
    pub fn register(&mut self, jingle: Jingle<S>)
        ensures
            registry_well_formed(*old(self)) ==> registry_well_formed(*final(self)),
            registered(*final(self), jingle.name@),
            jingle_named(*final(self), jingle.name@) == jingle,
            final(self).volume == old(self).volume,
            forall|n: Seq<char>|
                n != jingle.name@ ==> (registered(*final(self), n) == registered(*old(self), n)),
            forall|n: Seq<char>|
                n != jingle.name@ && registered(*old(self), n) ==> jingle_named(*final(self), n)
                    == jingle_named(*old(self), n),
    {
        let ghost old_names = jingle_names(self.jingles@);
        let ghost old_jingles = self.jingles@;
        let ghost jn = jingle.name@;
        match self.find_jingle(jingle.name.as_str()) {
            Some(i) => {
                proof {
                    lemma_first_key_bounds(old_names, jn, 0);
                }
                self.jingles.set(i, jingle);
                assert(jingle_names(self.jingles@) =~= old_names);
                assert(jingle_names(self.jingles@)[i as int] == jn);
                assert forall|n: Seq<char>|
                    n != jn && registered(*old(self), n) implies jingle_named(*self, n)
                    == jingle_named(*old(self), n) by {
                    lemma_first_key_bounds(old_names, n, 0);
                    lemma_contains_first_key(old_names, n);
                }
            },
            None => {
                self.jingles.push(jingle);
                assert(jingle_names(self.jingles@) =~= old_names.push(jn));
                proof {
                    if registry_well_formed(*old(self)) {
                        lemma_push_fresh_keeps_distinct(old_names, jn);
                    }
                }
                assert(jingle_names(self.jingles@)[old_names.len() as int] == jn);
                proof {
                    lemma_first_key_push(old_names, jn, jn, 0);
                    lemma_first_key_absent(old_names, jn, 0);
                }
                assert forall|n: Seq<char>| n != jn implies (registered(*self, n) == registered(
                    *old(self),
                    n,
                )) by {
                    assert(old_names.push(jn).contains(n) == old_names.contains(n)) by {
                        if old_names.contains(n) {
                            let j = choose|j: int| 0 <= j < old_names.len() && old_names[j] == n;
                            assert(old_names.push(jn)[j] == n);
                        }
                        if old_names.push(jn).contains(n) {
                            let j = choose|j: int|
                                0 <= j < old_names.push(jn).len() && old_names.push(jn)[j] == n;
                            assert(j < old_names.len());
                            assert(old_names[j] == n);
                        }
                    }
                }
                assert forall|n: Seq<char>|
                    n != jn && registered(*old(self), n) implies jingle_named(*self, n)
                    == jingle_named(*old(self), n) by {
                    lemma_contains_first_key(old_names, n);
                    lemma_first_key_push(old_names, jn, n, 0);
                    lemma_first_key_bounds(old_names, n, 0);
                    let idx = first_key(old_names, n, 0);
                    assert(self.jingles@[idx] == old_jingles[idx]);
                }
            },
        }
    }

    /// Forgets the rendered jingle with this name.
    pub fn unregister(&mut self, name: &str)
        ensures
            registry_well_formed(*old(self)) ==> registry_well_formed(*final(self)),
            !registered(*final(self), name@),
            final(self).volume == old(self).volume,
            forall|n: Seq<char>|
                n != name@ ==> (registered(*final(self), n) == registered(*old(self), n)),
            forall|n: Seq<char>|
                n != name@ && registered(*old(self), n) ==> jingle_named(*final(self), n)
                    == jingle_named(*old(self), n),
    {
        loop
            invariant
                registry_well_formed(*old(self)) ==> registry_well_formed(*self),
                self.volume == old(self).volume,
                forall|n: Seq<char>|
                    n != name@ ==> (registered(*self, n) == registered(*old(self), n)),
                forall|n: Seq<char>|
                    n != name@ && registered(*old(self), n) ==> jingle_named(*self, n)
                        == jingle_named(*old(self), n),
            ensures
                registry_well_formed(*old(self)) ==> registry_well_formed(*self),
                !registered(*self, name@),
                self.volume == old(self).volume,
                forall|n: Seq<char>|
                    n != name@ ==> (registered(*self, n) == registered(*old(self), n)),
                forall|n: Seq<char>|
                    n != name@ && registered(*old(self), n) ==> jingle_named(*self, n)
                        == jingle_named(*old(self), n),
            decreases self.jingles@.len(),
        {
            match self.find_jingle(name) {
                None => {
                    break ;
                },
                Some(i) => {
                    let ghost before = *self;
                    let ghost names = jingle_names(self.jingles@);
                    proof {
                        lemma_first_key_bounds(names, name@, 0);
                    }
                    let _ = self.jingles.remove(i);
                    assert(jingle_names(self.jingles@) =~= names.remove(i as int));
                    proof {
                        if registry_well_formed(before) {
                            lemma_remove_keeps_distinct(names, i as int);
                        }
                    }
                    assert forall|n: Seq<char>| n != name@ implies (registered(*self, n)
                        == registered(before, n)) by {
                        lemma_remove_keeps_other_keys(names, i as int, n);
                    }
                    assert forall|n: Seq<char>|
                        n != name@ && registered(before, n) implies jingle_named(*self, n)
                        == jingle_named(before, n) by {
                        lemma_contains_first_key(names, n);
                        lemma_first_key_bounds(names, n, 0);
                        lemma_first_key_remove(names, i as int, n);
                    }
                },
            }
        }
    }
}

pub proof fn lemma_contains_first_key<K>(keys: Seq<K>, k: K)
    ensures
        keys.contains(k) <==> first_key(keys, k, 0) < keys.len(),
{
    lemma_first_key_bounds(keys, k, 0);
    if keys.contains(k) {
        let j = choose|j: int| 0 <= j < keys.len() && keys[j] == k;
        if first_key(keys, k, 0) == keys.len() {
            assert(keys[j] != k);
        }
    }
}

pub proof fn lemma_first_key_push<K>(keys: Seq<K>, x: K, k: K, i: int)
    requires
        0 <= i <= keys.len(),
    ensures
        first_key(keys.push(x), k, i) == if first_key(keys, k, i) < keys.len() {
            first_key(keys, k, i)
        } else if x == k {
            keys.len() as int
        } else {
            keys.len() as int + 1
        },
    decreases keys.len() - i,
{
    if i < keys.len() {
        assert(keys.push(x)[i] == keys[i]);
        lemma_first_key_push(keys, x, k, i + 1);
    } else {
        assert(keys.push(x)[i] == x);
        if x != k {
            assert(first_key(keys.push(x), k, i + 1) == keys.len() + 1);
        }
    }
}

proof fn lemma_first_key_remove_tail<K>(keys: Seq<K>, idx: int, k: K, j: int)
    requires
        0 <= idx < keys.len(),
        idx <= j <= keys.len() - 1,
    ensures
        first_key(keys.remove(idx), k, j) == first_key(keys, k, j + 1) - 1,
    decreases keys.len() - j,
{
    if j < keys.len() - 1 {
        assert(keys.remove(idx)[j] == keys[j + 1]);
        lemma_first_key_remove_tail(keys, idx, k, j + 1);
    }
}

proof fn lemma_first_key_remove_head<K>(keys: Seq<K>, idx: int, k: K, i: int)
    requires
        0 <= i <= idx < keys.len(),
        keys[idx] != k,
    ensures
        ({
            let f = first_key(keys, k, i);
            first_key(keys.remove(idx), k, i) == if f < idx {
                f
            } else {
                f - 1
            }
        }),
    decreases idx - i,
{
    lemma_first_key_bounds(keys, k, i);
    if i < idx {
        assert(keys.remove(idx)[i] == keys[i]);
        lemma_first_key_remove_head(keys, idx, k, i + 1);
    } else {
        lemma_first_key_remove_tail(keys, idx, k, i);
    }
}

/// Removing an entry whose key is not `k` keeps the first entry with key `k`.
pub proof fn lemma_first_key_remove<K>(keys: Seq<K>, idx: int, k: K)
    requires
        0 <= idx < keys.len(),
        keys[idx] != k,
    ensures
        ({
            let f = first_key(keys, k, 0);
            first_key(keys.remove(idx), k, 0) == if f < idx {
                f
            } else {
                f - 1
            }
        }),
{
    lemma_first_key_remove_head(keys, idx, k, 0);
}

/// Removing an entry keeps every other key present or absent.
pub proof fn lemma_remove_keeps_other_keys<K>(keys: Seq<K>, idx: int, k: K)
    requires
        0 <= idx < keys.len(),
        keys[idx] != k,
    ensures
        keys.remove(idx).contains(k) == keys.contains(k),
{
    if keys.contains(k) {
        let j = choose|j: int| 0 <= j < keys.len() && keys[j] == k;
        if j < idx {
            assert(keys.remove(idx)[j] == k);
        } else {
            assert(keys.remove(idx)[j - 1] == k);
        }
    }
    if keys.remove(idx).contains(k) {
        let j = choose|j: int| 0 <= j < keys.remove(idx).len() && keys.remove(idx)[j] == k;
        if j < idx {
            assert(keys[j] == k);
        } else {
            assert(keys[j + 1] == k);
        }
    }
}


impl<S> JingleRegistry<S> {
    /// The volume set for a group, if any.
    pub fn volume_of(&self, g: &SoundGroup) -> (r: Option<u32>)
        ensures
            r == group_volume(*self, g@),
    {
        let n = self.volume.len();
        let mut i: usize = 0;
        let ghost groups = volume_groups(self.volume@);
        while i < n
            invariant
                n == self.volume@.len(),
                groups == volume_groups(self.volume@),
                i <= n,
                forall|j: int| 0 <= j < i ==> groups[j] != g@,
            decreases n - i,
        {
            assert(groups[i as int] == self.volume@[i as int].0@);
            if self.volume[i].0.same(g) {
                proof {
                    lemma_first_key_bounds(groups, g@, 0);
                }
                return Some(self.volume[i].1);
            }
            i = i + 1;
        }
        proof {
            lemma_first_key_absent(groups, g@, 0);
        }
        None
    }

    /// Sets the volume of a group, replacing its former volume.
    pub fn set_volume(&mut self, g: SoundGroup, v: u32)
        ensures
            registry_well_formed(*old(self)) ==> registry_well_formed(*final(self)),
            group_volume(*final(self), g@) == Some(v),
            forall|h: GroupModel| h != g@ ==> group_volume(*final(self), h) == group_volume(*old(self), h),
            final(self).jingles == old(self).jingles,
    {
        let ghost groups = volume_groups(self.volume@);
        let ghost gm = g@;
        let ghost old_volume = self.volume@;
        let n = self.volume.len();
        let mut i: usize = 0;
        while i < n && !self.volume[i].0.same(&g)
            invariant
                n == self.volume@.len(),
                groups == volume_groups(self.volume@),
                i <= n,
                forall|j: int| 0 <= j < i ==> groups[j] != g@,
            decreases n - i,
        {
            assert(groups[i as int] == self.volume@[i as int].0@);
            i = i + 1;
        }
        proof {
            lemma_first_key_bounds(groups, gm, 0);
        }
        if i < n {
            assert(groups[i as int] == self.volume@[i as int].0@);
            proof {
                lemma_first_key_absent(groups.take(i as int), gm, 0);
                assert(first_key(groups, gm, 0) == i) by {
                    lemma_first_key_prefix(groups, gm, i as int);
                }
            }
            self.volume.set(i, (g, v));
            assert(volume_groups(self.volume@) =~= groups);
            assert forall|h: GroupModel| h != gm implies group_volume(*self, h) == group_volume(
                *old(self),
                h,
            ) by {
                lemma_first_key_bounds(groups, h, 0);
            }
        } else {
            proof {
                lemma_first_key_absent(groups, gm, 0);
            }
            self.volume.push((g, v));
            assert(volume_groups(self.volume@) =~= groups.push(gm));
            proof {
                if registry_well_formed(*old(self)) {
                    assert(!groups.contains(gm));
                    lemma_push_fresh_keeps_distinct(groups, gm);
                }
            }
            proof {
                lemma_first_key_push(groups, gm, gm, 0);
            }
            assert forall|h: GroupModel| h != gm implies group_volume(*self, h) == group_volume(
                *old(self),
                h,
            ) by {
                lemma_first_key_push(groups, gm, h, 0);
                lemma_first_key_bounds(groups, h, 0);
                let k = first_key(groups, h, 0);
                if k < groups.len() {
                    assert(self.volume@[k] == old_volume[k]);
                }
            }
        }
    }
}

proof fn lemma_first_key_prefix<K>(keys: Seq<K>, k: K, i: int)
    requires
        0 <= i < keys.len(),
        keys[i] == k,
        forall|j: int| 0 <= j < i ==> keys[j] != k,
    ensures
        first_key(keys, k, 0) == i,
{
    lemma_first_key_from(keys, k, 0, i);
}

proof fn lemma_first_key_from<K>(keys: Seq<K>, k: K, a: int, i: int)
    requires
        0 <= a <= i < keys.len(),
        keys[i] == k,
        forall|j: int| a <= j < i ==> keys[j] != k,
    ensures
        first_key(keys, k, a) == i,
    decreases i - a,
{
    if a < i {
        lemma_first_key_from(keys, k, a + 1, i);
    }
}

// ---------------------------------------------------------------------------
// The playback backend
// ---------------------------------------------------------------------------
/// The playing instances: each a jingle name and a ticket.
#[derive(Debug)]
pub struct Jukebox {
    pub instances: Vec<(String, u128)>,
}

/// The models of a sequence of instances.
pub open spec fn instance_models(v: Seq<(String, u128)>) -> Seq<(Seq<char>, u128)> {
    v.map_values(|x: (String, u128)| (x.0@, x.1))
}

impl View for Jukebox {
    type V = Seq<(Seq<char>, u128)>;

    open spec fn view(&self) -> Seq<(Seq<char>, u128)> {
        instance_models(self.instances@)
    }
}

/// One thing the backend does with an order.
#[derive(Debug)]
pub enum PrisonAction {
    /// Start playing the registered jingle with this name as a new instance
    /// with this ticket, at this volume; an instance with the same name and
    /// ticket is replaced.
    StartStream(String, u128, u32),
    /// Stop (pause) an instance.
    StopStream(String, u128),
    /// Start an instance again.
    ResumeStream(String, u128),
    /// Release every instance of a jingle.
    DropStreams(String),
    /// Release one instance.
    DropStream(String, u128),
    /// Set the volume of an instance.
    SetStreamVolume(String, u128, u32),
    /// Re-issue the order by the file name of this path.
    ResendByFileName(RequestKind, String),
    /// Stop serving orders.
    Halt,
}

/// The mathematical content of a backend action.
pub enum PrisonActionModel {
    StartStream(Seq<char>, u128, u32),
    StopStream(Seq<char>, u128),
    ResumeStream(Seq<char>, u128),
    DropStreams(Seq<char>),
    DropStream(Seq<char>, u128),
    SetStreamVolume(Seq<char>, u128, u32),
    ResendByFileName(RequestKind, Seq<char>),
    Halt,
}

impl View for PrisonAction {
    type V = PrisonActionModel;

    open spec fn view(&self) -> PrisonActionModel {
        match self {
            PrisonAction::StartStream(n, u, v) => PrisonActionModel::StartStream(n@, *u, *v),
            PrisonAction::StopStream(n, u) => PrisonActionModel::StopStream(n@, *u),
            PrisonAction::ResumeStream(n, u) => PrisonActionModel::ResumeStream(n@, *u),
            PrisonAction::DropStreams(n) => PrisonActionModel::DropStreams(n@),
            PrisonAction::DropStream(n, u) => PrisonActionModel::DropStream(n@, *u),
            PrisonAction::SetStreamVolume(n, u, v) => PrisonActionModel::SetStreamVolume(
                n@,
                *u,
                *v,
            ),
            PrisonAction::ResendByFileName(k, p) => PrisonActionModel::ResendByFileName(*k, p@),
            PrisonAction::Halt => PrisonActionModel::Halt,
        }
    }
}

/// The models of a sequence of backend actions.
pub open spec fn prison_action_models(v: Seq<PrisonAction>) -> Seq<PrisonActionModel> {
    v.map_values(|a: PrisonAction| a@)
}

/// Whether a registered jingle with this name plays in this group.
pub open spec fn plays_in<S>(reg: JingleRegistry<S>, name: Seq<char>, g: GroupModel) -> bool {
    exists|i: int|
        0 <= i < reg.jingles@.len() && #[trigger] reg.jingles@[i].name@ == name
            && reg.jingles@[i].group@ == g
}

/// Whether the backend can serve an order: playing an instance needs its
/// jingle registered and a volume set for the jingle's group.
pub open spec fn order_serviceable<S>(reg: JingleRegistry<S>, o: OrderModel) -> bool {
    match o {
        OrderModel::Play(RequestModel::Targeted(n, _)) => registered(reg, n) && group_volume(
            reg,
            jingle_named(reg, n).group@,
        ) is Some,
        _ => true,
    }
}

/// Whether an instance belongs to another jingle than `n`.
pub open spec fn other_name(n: Seq<char>) -> spec_fn((Seq<char>, u128)) -> bool {
    |x: (Seq<char>, u128)| x.0 != n
}

/// Whether an instance is another one than the instance of `n` with ticket `u`.
pub open spec fn other_instance(n: Seq<char>, u: u128) -> spec_fn((Seq<char>, u128)) -> bool {
    |y: (Seq<char>, u128)| y != (n, u)
}

/// The instances of other jingles than `n`, in order.
pub open spec fn without_name(j: Seq<(Seq<char>, u128)>, n: Seq<char>) -> Seq<(Seq<char>, u128)> {
    j.filter(other_name(n))
}

/// The instances other than the instance of `n` with ticket `u`, in order.
pub open spec fn without_instance(j: Seq<(Seq<char>, u128)>, n: Seq<char>, u: u128) -> Seq<
    (Seq<char>, u128),
> {
    j.filter(other_instance(n, u))
}

/// The instances playing after an order.
pub open spec fn jukebox_after(j: Seq<(Seq<char>, u128)>, o: OrderModel) -> Seq<(Seq<char>, u128)> {
    match o {
        OrderModel::Play(RequestModel::Targeted(n, u)) => if j.contains((n, u)) {
            j
        } else {
            j.push((n, u))
        },
        OrderModel::Drop(RequestModel::ByName(n)) => without_name(j, n),
        OrderModel::Drop(RequestModel::Targeted(n, u)) => without_instance(j, n, u),
        _ => j,
    }
}

/// The instances whose jingle plays in group `g`, in order.
pub open spec fn volume_targets<S>(
    reg: JingleRegistry<S>,
    j: Seq<(Seq<char>, u128)>,
    g: GroupModel,
) -> Seq<(Seq<char>, u128)> {
    j.filter(|x: (Seq<char>, u128)| plays_in(reg, x.0, g))
}

/// What the backend does with an order, given the instances playing and the
/// registry before it. Pausing or resuming all instances of a jingle by name
/// does nothing; pausing or resuming one instance acts only on an instance
/// that is playing; releasing is asked for whether or not it plays.
pub open spec fn prison_actions<S>(
    reg: JingleRegistry<S>,
    j: Seq<(Seq<char>, u128)>,
    o: OrderModel,
) -> Seq<PrisonActionModel> {
    match o {
        OrderModel::Play(RequestModel::Targeted(n, u)) => seq![
            PrisonActionModel::StartStream(
                n,
                u,
                group_volume(reg, jingle_named(reg, n).group@)->Some_0,
            ),
        ],
        OrderModel::Play(_) => seq![],
        OrderModel::Pause(RequestModel::ByPath(p)) => seq![
            PrisonActionModel::ResendByFileName(RequestKind::Pause, p),
        ],
        OrderModel::Pause(RequestModel::Targeted(n, u)) => if j.contains((n, u)) {
            seq![PrisonActionModel::StopStream(n, u)]
        } else {
            seq![]
        },
        OrderModel::UnPause(RequestModel::ByPath(p)) => seq![
            PrisonActionModel::ResendByFileName(RequestKind::UnPause, p),
        ],
        OrderModel::UnPause(RequestModel::Targeted(n, u)) => if j.contains((n, u)) {
            seq![PrisonActionModel::ResumeStream(n, u)]
        } else {
            seq![]
        },
        OrderModel::Pause(RequestModel::ByName(_)) => seq![],
        OrderModel::UnPause(RequestModel::ByName(_)) => seq![],
        OrderModel::Drop(RequestModel::ByPath(p)) => seq![
            PrisonActionModel::ResendByFileName(RequestKind::Drop, p),
        ],
        OrderModel::Drop(RequestModel::ByName(n)) => seq![PrisonActionModel::DropStreams(n)],
        OrderModel::Drop(RequestModel::Targeted(n, u)) => seq![
            PrisonActionModel::DropStream(n, u),
        ],
        OrderModel::SetVolume(g, v) => volume_targets(reg, j, g).map_values(
            |x: (Seq<char>, u128)| PrisonActionModel::SetStreamVolume(x.0, x.1, v),
        ),
        OrderModel::Die => seq![PrisonActionModel::Halt],
    }
}


impl Jukebox {
    /// Nothing playing.
    pub fn new() -> (j: Jukebox)
        ensures
            j@ == Seq::<(Seq<char>, u128)>::empty(),
    {
        let j = Jukebox { instances: Vec::new() };
        assert(j@ =~= Seq::<(Seq<char>, u128)>::empty());
        j
    }

    /// Whether this instance is playing.
    pub fn contains(&self, name: &String, ticket: u128) -> (r: bool)
        ensures
            r == self@.contains((name@, ticket)),
    {
        let n = self.instances.len();
        let mut i: usize = 0;
        while i < n
            invariant
                n == self.instances@.len(),
                i <= n,
                forall|j: int| 0 <= j < i ==> self@[j] != (name@, ticket),
            decreases n - i,
        {
            if self.instances[i].1 == ticket && self.instances[i].0 == *name {
                assert(self@[i as int] == (name@, ticket));
                return true;
            }
            i = i + 1;
        }
        false
    }

    fn add(&mut self, name: String, ticket: u128)
        ensures
            final(self)@ == (if old(self)@.contains((name@, ticket)) {
                old(self)@
            } else {
                old(self)@.push((name@, ticket))
            }),
    {
        if !self.contains(&name, ticket) {
            let ghost before = self.instances@;
            let ghost x = (name@, ticket);
            self.instances.push((name, ticket));
            assert(self@ =~= instance_models(before).push(x));
        }
    }

    fn keep_where(&mut self, name: &String, ticket: u128, whole_name: bool)
        ensures
            whole_name ==> final(self)@ == without_name(old(self)@, name@),
            !whole_name ==> final(self)@ == without_instance(old(self)@, name@, ticket),
    {
        let ghost all = self@;
        let ghost pred = if whole_name {
            other_name(name@)
        } else {
            other_instance(name@, ticket)
        };
        let mut kept: Vec<(String, u128)> = Vec::new();
        let n = self.instances.len();
        let mut i: usize = 0;
        assert(all.take(0) =~= Seq::<(Seq<char>, u128)>::empty());
        proof {
            reveal(Seq::filter);
        }
        assert(instance_models(kept@) =~= all.take(0).filter(pred));
        while i < n
            invariant
                n == self.instances@.len(),
                all == self@,
                i <= n,
                pred == (if whole_name {
                    other_name(name@)
                } else {
                    other_instance(name@, ticket)
                }),
                instance_models(kept@) == all.take(i as int).filter(pred),
            decreases n - i,
        {
            let ghost before = kept@;
            let same_name = self.instances[i].0 == *name;
            let drop_it = if whole_name {
                same_name
            } else {
                same_name && self.instances[i].1 == ticket
            };
            assert(all.take(i + 1).drop_last() =~= all.take(i as int));
            assert(all.take(i + 1).last() == all[i as int]);
            assert(all[i as int] == (self.instances@[i as int].0@, self.instances@[i as int].1));
            proof {
                reveal(Seq::filter);
            }
            if !drop_it {
                let copy = self.instances[i].0.clone();
                kept.push((copy, self.instances[i].1));
                assert(instance_models(kept@) =~= instance_models(before).push(all[i as int]));
            } else {
                assert(instance_models(kept@) =~= instance_models(before));
            }
            i = i + 1;
        }
        assert(all.take(n as int) =~= all);
        self.instances = kept;
    }
}

/// Whether the registered jingle with this name plays in group `g`.
fn plays_in_exec<S>(reg: &JingleRegistry<S>, name: &String, g: &SoundGroup) -> (r: bool)
    ensures
        r == plays_in(*reg, name@, g@),
{
    let n = reg.jingles.len();
    let mut i: usize = 0;
    while i < n
        invariant
            n == reg.jingles@.len(),
            i <= n,
            forall|j: int|
                0 <= j < i ==> !(reg.jingles@[j].name@ == name@ && reg.jingles@[j].group@ == g@),
        decreases n - i,
    {
        if reg.jingles[i].name == *name && reg.jingles[i].group.same(g) {
            return true;
        }
        i = i + 1;
    }
    false
}

/// What the playback backend does with one order: the instances playing
/// afterwards, the volume it records, and the playback actions to perform.
pub fn prison_step<S>(
    jukebox: &mut Jukebox,
    registry: &mut JingleRegistry<S>,
    order: AudioPrisonOrder,
) -> (actions: Vec<PrisonAction>)
    requires
        order_serviceable(*old(registry), order@),
    ensures
        final(jukebox)@ == jukebox_after(old(jukebox)@, order@),
        prison_action_models(actions@) == prison_actions(*old(registry), old(jukebox)@, order@),
        registry_well_formed(*old(registry)) ==> registry_well_formed(*final(registry)),
        final(registry).jingles == old(registry).jingles,
        match order@ {
            OrderModel::SetVolume(g, v) => group_volume(*final(registry), g) == Some(v) && forall|
                h: GroupModel,
            | h != g ==> group_volume(*final(registry), h) == group_volume(*old(registry), h),
            _ => final(registry).volume == old(registry).volume,
        },
{
    let ghost j0 = jukebox@;
    let ghost o = order@;
    let mut actions: Vec<PrisonAction> = Vec::new();
    match order {
        AudioPrisonOrder::Play(tard) => match tard {
            TicketedAudioRequestData::Targeted(name, u) => {
                let idx = registry.find_jingle(name.as_str());
                match idx {
                    Some(i) => {
                        proof {
                            lemma_first_key_bounds(jingle_names(registry.jingles@), name@, 0);
                        }
                        let vol = registry.volume_of(&registry.jingles[i].group);
                        match vol {
                            Some(v) => {
                                let copy = name.clone();
                                actions.push(PrisonAction::StartStream(copy, u, v));
                                jukebox.add(name, u);
                            },
                            None => {
                                assert(false);
                            },
                        }
                    },
                    None => {
                        assert(false);
                    },
                }
            },
            _ => {},
        },
        AudioPrisonOrder::Pause(tard) => match tard {
            TicketedAudioRequestData::ByPath(p) => {
                actions.push(PrisonAction::ResendByFileName(RequestKind::Pause, p));
            },
            TicketedAudioRequestData::ByName(_) => {},
            TicketedAudioRequestData::Targeted(n, u) => {
                if jukebox.contains(&n, u) {
                    actions.push(PrisonAction::StopStream(n, u));
                }
            },
        },
        AudioPrisonOrder::UnPause(tard) => match tard {
            TicketedAudioRequestData::ByPath(p) => {
                actions.push(PrisonAction::ResendByFileName(RequestKind::UnPause, p));
            },
            TicketedAudioRequestData::ByName(_) => {},
            TicketedAudioRequestData::Targeted(n, u) => {
                if jukebox.contains(&n, u) {
                    actions.push(PrisonAction::ResumeStream(n, u));
                }
            },
        },
        AudioPrisonOrder::Drop(tard) => match tard {
            TicketedAudioRequestData::ByPath(p) => {
                actions.push(PrisonAction::ResendByFileName(RequestKind::Drop, p));
            },
            TicketedAudioRequestData::ByName(n) => {
                jukebox.keep_where(&n, 0, true);
                actions.push(PrisonAction::DropStreams(n));
            },
            TicketedAudioRequestData::Targeted(n, u) => {
                jukebox.keep_where(&n, u, false);
                actions.push(PrisonAction::DropStream(n, u));
            },
        },
        AudioPrisonOrder::SetVolume(group, volume) => {
            let ghost reg0 = *registry;
            let ghost gm = group@;
            let n = jukebox.instances.len();
            let mut i: usize = 0;
            let ghost pred = |x: (Seq<char>, u128)| plays_in(reg0, x.0, gm);
            let ghost mk = |x: (Seq<char>, u128)| PrisonActionModel::SetStreamVolume(x.0, x.1, volume);
            assert(j0.take(0) =~= Seq::<(Seq<char>, u128)>::empty());
            proof {
                reveal(Seq::filter);
            }
            assert(prison_action_models(actions@) =~= j0.take(0).filter(pred).map_values(mk));
            while i < n
                invariant
                    n == jukebox.instances@.len(),
                    j0 == jukebox@,
                    reg0 == *registry,
                    gm == group@,
                    i <= n,
                    pred == (|x: (Seq<char>, u128)| plays_in(reg0, x.0, gm)),
                    mk == (|x: (Seq<char>, u128)|
                        PrisonActionModel::SetStreamVolume(x.0, x.1, volume)),
                    prison_action_models(actions@) == j0.take(i as int).filter(pred).map_values(mk),
                decreases n - i,
            {
                let ghost before = j0.take(i as int).filter(pred);
                assert(j0.take(i + 1).drop_last() =~= j0.take(i as int));
                assert(j0.take(i + 1).last() == j0[i as int]);
                assert(j0[i as int] == (jukebox.instances@[i as int].0@, jukebox.instances@[i as int].1));
                proof {
                    reveal(Seq::filter);
                }
                let ghost acts0 = actions@;
                if plays_in_exec(registry, &jukebox.instances[i].0, &group) {
                    let copy = jukebox.instances[i].0.clone();
                    actions.push(PrisonAction::SetStreamVolume(copy, jukebox.instances[i].1, volume));
                    assert(j0.take(i + 1).filter(pred) == before.push(j0[i as int]));
                    assert(prison_action_models(actions@) =~= prison_action_models(acts0).push(mk(j0[i as int])));
                    assert(before.push(j0[i as int]).map_values(mk) =~= before.map_values(mk).push(mk(j0[i as int])));
                } else {
                    assert(j0.take(i + 1).filter(pred) == before);
                }
                i = i + 1;
            }
            assert(j0.take(n as int) =~= j0);
            registry.set_volume(group, volume);
        },
        AudioPrisonOrder::Die => {
            actions.push(PrisonAction::Halt);
        },
    }
    assert(prison_action_models(actions@) =~= prison_actions(*old(registry), j0, o));
    actions
}


// ---------------------------------------------------------------------------
// Laws
// ---------------------------------------------------------------------------
proof fn lemma_filter_keeps_all(j: Seq<(Seq<char>, u128)>, n: Seq<char>, u: u128)
    requires
        !j.contains((n, u)),
    ensures
        without_instance(j, n, u) == j,
    decreases j.len(),
{
    reveal(Seq::filter);
    if j.len() > 0 {
        assert(!j.drop_last().contains((n, u))) by {
            if j.drop_last().contains((n, u)) {
                let k = choose|k: int| 0 <= k < j.drop_last().len() && j.drop_last()[k] == (n, u);
                assert(j[k] == (n, u));
            }
        }
        lemma_filter_keeps_all(j.drop_last(), n, u);
        assert(j.last() != (n, u)) by {
            if j.last() == (n, u) {
                assert(j[j.len() - 1] == (n, u));
            }
        }
        assert(j.drop_last().push(j.last()) =~= j);
    }
}

/// Playing a new instance and then releasing that instance leaves the same
/// instances playing as before.
pub proof fn lemma_play_then_release_restores(j: Seq<(Seq<char>, u128)>, n: Seq<char>, u: u128)
    requires
        !j.contains((n, u)),
    ensures
        jukebox_after(
            jukebox_after(j, OrderModel::Play(RequestModel::Targeted(n, u))),
            OrderModel::Drop(RequestModel::Targeted(n, u)),
        ) == j,
{
    reveal(Seq::filter);
    let pushed = j.push((n, u));
    assert(pushed.drop_last() =~= j);
    assert(pushed.last() == (n, u));
    lemma_filter_keeps_all(j, n, u);
}

/// Releasing a jingle by name leaves no instance of it playing, and keeps
/// every instance of the other jingles.
pub proof fn lemma_release_by_name(j: Seq<(Seq<char>, u128)>, n: Seq<char>)
    ensures
        forall|k: int|
            0 <= k < jukebox_after(j, OrderModel::Drop(RequestModel::ByName(n))).len() ==> (
            #[trigger] jukebox_after(j, OrderModel::Drop(RequestModel::ByName(n)))[k]).0 != n,
        forall|x: (Seq<char>, u128)|
            j.contains(x) && x.0 != n ==> #[trigger] jukebox_after(
                j,
                OrderModel::Drop(RequestModel::ByName(n)),
            ).contains(x),
{
    let pred = other_name(n);
    #[allow(deprecated)]
    j.filter_lemma(pred);
    assert forall|x: (Seq<char>, u128)| j.contains(x) && x.0 != n implies #[trigger] j.filter(
        pred,
    ).contains(x) by {
        let k = choose|k: int| 0 <= k < j.len() && j[k] == x;
        assert(pred(j[k]));
    }
}

/// Pausing or resuming never changes which instances are playing.
pub proof fn lemma_pause_resume_keep_instances(j: Seq<(Seq<char>, u128)>, r: RequestModel)
    ensures
        jukebox_after(j, OrderModel::Pause(r)) == j,
        jukebox_after(j, OrderModel::UnPause(r)) == j,
{
}

/// The audio worker that currently takes the orchestra's commands, by
/// generation: each replacement starts a worker one generation younger.
#[derive(Clone, Copy, PartialEq, Eq, Structural, Debug)]
pub struct WorkerSlot {
    pub generation: u64,
    /// A worker of that generation is running.
    pub live: bool,
}

/// What replacing the worker asks for.
#[derive(Clone, Copy, PartialEq, Eq, Structural, Debug)]
pub struct WorkerHandover {
    /// The generation of the worker to start.
    pub generation: u64,
    /// The worker that ran so far must be told to die.
    pub retire_previous: bool,
}

/// The slot after a replacement.
pub open spec fn replaced(w: WorkerSlot) -> WorkerSlot {
    WorkerSlot { generation: (w.generation + 1) as u64, live: true }
}

/// What a replacement asks for.
pub open spec fn handover(w: WorkerSlot) -> WorkerHandover {
    WorkerHandover { generation: (w.generation + 1) as u64, retire_previous: w.live }
}

impl WorkerSlot {
    /// No worker yet.
    pub fn new() -> (w: WorkerSlot)
        ensures
            w.generation == 0,
            !w.live,
    {
        WorkerSlot { generation: 0, live: false }
    }

    /// Replaces the worker by one of the next generation; the running one,
    /// if any, is to be told to die.
    pub fn replace_worker(&mut self) -> (h: WorkerHandover)
        requires
            old(self).generation < u64::MAX,
        ensures
            *final(self) == replaced(*old(self)),
            h == handover(*old(self)),
    {
        let generation = self.generation + 1;
        let retire_previous = self.live;
        self.generation = generation;
        self.live = true;
        WorkerHandover { generation, retire_previous }
    }
}

/// Two replacements in a row start ever younger workers, and the second one
/// always retires the worker that the first one started.
pub proof fn lemma_generations_increase(w: WorkerSlot)
    requires
        w.generation < u64::MAX - 1,
    ensures
        w.generation < handover(w).generation < handover(replaced(w)).generation,
        handover(replaced(w)).retire_previous,
        replaced(w).generation == handover(w).generation,
{
}

/// The router keeps the meaning of a command: playing, pausing and
/// resuming reach the backend as an order of the same kind about the same
/// request; a volume reaches it unchanged; stopping one instance pauses and
/// then releases that instance; dying stops the backend and then the router.
pub proof fn lemma_routing_keeps_meaning(r: RequestModel, g: GroupModel, v: u32)
    ensures
        route_spec(CommandModel::Play(r)) == seq![RouterActionModel::ToBackend(OrderModel::Play(r))],
        route_spec(CommandModel::Pause(r)) == seq![RouterActionModel::ToBackend(OrderModel::Pause(r))],
        route_spec(CommandModel::UnPause(r)) == seq![
            RouterActionModel::ToBackend(OrderModel::UnPause(r)),
        ],
        route_spec(CommandModel::SetVolume(g, v)) == seq![
            RouterActionModel::ToBackend(OrderModel::SetVolume(g, v)),
        ],
        !(r is ByPath) ==> route_spec(CommandModel::Stop(r)) == seq![
            RouterActionModel::ToBackend(OrderModel::Pause(r)),
            RouterActionModel::ToBackend(OrderModel::Drop(r)),
        ],
        route_spec(CommandModel::Die) == seq![
            RouterActionModel::ToBackend(OrderModel::Die),
            RouterActionModel::Shutdown,
        ],
{
}

/// The backend keeps the meaning of an order: pausing a playing instance
/// stops that instance's stream and resuming it starts it again; releasing
/// by name drops every stream of that jingle and releasing one instance
/// drops that stream; a new instance plays at its group's volume; dying halts.
pub proof fn lemma_backend_keeps_meaning<S>(
    reg: JingleRegistry<S>,
    j: Seq<(Seq<char>, u128)>,
    n: Seq<char>,
    u: u128,
)
    ensures
        j.contains((n, u)) ==> prison_actions(reg, j, OrderModel::Pause(RequestModel::Targeted(n, u)))
            == seq![PrisonActionModel::StopStream(n, u)],
        j.contains((n, u)) ==> prison_actions(reg, j, OrderModel::UnPause(RequestModel::Targeted(n, u)))
            == seq![PrisonActionModel::ResumeStream(n, u)],
        !j.contains((n, u)) ==> prison_actions(reg, j, OrderModel::Pause(RequestModel::Targeted(n, u)))
            == Seq::<PrisonActionModel>::empty(),
        prison_actions(reg, j, OrderModel::Drop(RequestModel::ByName(n))) == seq![
            PrisonActionModel::DropStreams(n),
        ],
        prison_actions(reg, j, OrderModel::Drop(RequestModel::Targeted(n, u))) == seq![
            PrisonActionModel::DropStream(n, u),
        ],
        group_volume(reg, jingle_named(reg, n).group@) matches Some(v) ==> prison_actions(
            reg,
            j,
            OrderModel::Play(RequestModel::Targeted(n, u)),
        ) == seq![PrisonActionModel::StartStream(n, u, v)],
        prison_actions(reg, j, OrderModel::Die) == seq![PrisonActionModel::Halt],
{
}

} // verus!

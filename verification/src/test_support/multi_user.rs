//! Several players in one shared world.
//!
//! The harness lays out where each player's saves and the shared world database
//! lie below a root directory, and who each player is.

use vstd::prelude::*;

use crate::config::{
    GameConfig, GameSection, ManifestSection, SaveSection, SaveStrategy, WorldSection,
};
use crate::foglet::{ContextSource, FogletContext};
use crate::roles::{token, FogletRole};
use crate::save::{join_path, joined};
use crate::text::{opt_text, Text};

verus! {

broadcast use vstd::string::group_string_axioms;

/// A player to be.
#[derive(Debug, Clone, PartialEq, Eq)]
pub struct UserSpec {
    pub handle: String,
    pub role: FogletRole,
}

/// A player of the harness.
#[derive(Debug, Clone, PartialEq, Eq)]
pub struct HarnessUser {
    pub handle: String,
    pub foglet: FogletContext,
    pub save_root: String,
}

/// Why there is no harness. The texts are what the system said.
#[derive(Debug, Clone, PartialEq, Eq)]
pub enum MultiUserHarnessError {
    NoUsers,
    DuplicateHandle { handle: String },
    TempDir { source: String },
    SaveRoot { handle: String, path: String, source: String },
    WorldDb { source: String },
}

/// How an error reads.
pub open spec fn harness_error_text(error: MultiUserHarnessError) -> Seq<char> {
    match error {
        MultiUserHarnessError::NoUsers => "multi-user harness requires at least one user"@,
        MultiUserHarnessError::DuplicateHandle { handle } => "duplicate harness user handle `"@
            + handle@ + "`"@,
        MultiUserHarnessError::TempDir { source } =>
            "failed to create multi-user harness temp directory: "@ + source@,
        MultiUserHarnessError::SaveRoot { handle, path, source } =>
            "failed to create save root for `"@ + handle@ + "` at "@ + path@ + ": "@ + source@,
        MultiUserHarnessError::WorldDb { source } => "failed to open harness world DB: "@ + source@,
    }
}

impl MultiUserHarnessError {
    /// The message for the author of the test.
    pub fn message(&self) -> (r: String)
        ensures
            r@ == harness_error_text(*self),
    {
        let mut out: String = String::new();
        match self {
            MultiUserHarnessError::NoUsers => {
                out.append("multi-user harness requires at least one user")
            },
            MultiUserHarnessError::DuplicateHandle { handle } => {
                out.append("duplicate harness user handle `");
                out.append(handle.as_str());
                out.append("`");
            },
            MultiUserHarnessError::TempDir { source } => {
                out.append("failed to create multi-user harness temp directory: ");
                out.append(source.as_str());
            },
            MultiUserHarnessError::SaveRoot { handle, path, source } => {
                out.append("failed to create save root for `");
                out.append(handle.as_str());
                out.append("` at ");
                out.append(path.as_str());
                out.append(": ");
                out.append(source.as_str());
            },
            MultiUserHarnessError::WorldDb { source } => {
                out.append("failed to open harness world DB: ");
                out.append(source.as_str());
            },
        }
        assert(out@ =~= harness_error_text(*self));
        out
    }
}

/// Whether a launch context is that of a player of the harness.
pub open spec fn is_context_of(context: FogletContext, spec: UserSpec) -> bool {
    &&& context.door_id@ == "multi-user-harness"@
    &&& opt_text(context.user_id) == Some("harness:"@ + spec.handle@)
    &&& opt_text(context.username) == Some(spec.handle@)
    &&& opt_text(context.role) == Some(token(spec.role@))
    &&& opt_text(context.session_id) == Some("session:"@ + spec.handle@)
    &&& context.terminal_width == 80
    &&& context.terminal_height == 24
    &&& context.source == ContextSource::LocalDev
}

/// Whether a player is the one to be, with saves below a root.
pub open spec fn is_user_of(user: HarnessUser, spec: UserSpec, root: Seq<char>) -> bool {
    &&& user.handle@ == spec.handle@
    &&& is_context_of(user.foglet, spec)
    &&& user.save_root@ == joined(joined(root, "saves"@), spec.handle@)
}

/// Whether no two of the players to be have the same handle.
pub open spec fn handles_distinct(specs: Seq<UserSpec>) -> bool {
    forall|i: int, j: int|
        0 <= i < j < specs.len() ==> (#[trigger] specs[i]).handle@ != (#[trigger] specs[j]).handle@
}

/// Whether player `n` is the first whose handle was taken before.
pub open spec fn first_duplicate(specs: Seq<UserSpec>, n: int) -> bool {
    &&& 0 <= n < specs.len()
    &&& handles_distinct(specs.take(n))
    &&& exists|i: int| 0 <= i < n && (#[trigger] specs[i]).handle@ == specs[n].handle@
}

/// Whether players are those to be, one for one.
pub open spec fn are_users_of(users: Seq<HarnessUser>, specs: Seq<UserSpec>, root: Seq<char>) -> bool {
    &&& users.len() == specs.len()
    &&& forall|i: int|
        0 <= i < users.len() ==> is_user_of(#[trigger] users[i], specs[i], root)
}

/// Whether a configuration is the one that harnesses use.
pub open spec fn is_harness_config(config: GameConfig) -> bool {
    &&& config.game.title@ == "Multi User Harness"@
    &&& config.game.slug@ == "multi-user-harness"@
    &&& config.game.description@ == "test harness"@
    &&& config.game.min_width == 80
    &&& config.game.min_height == 24
    &&& config.game.start_map@ == "harness"@
    &&& config.game.start_x == 0
    &&& config.game.start_y == 0
    &&& config.save.strategy == SaveStrategy::PerFogletUser
    &&& config.manifest.timeout_ms == 1_800_000
    &&& config.manifest.idle_timeout_ms == 300_000
    &&& config.manifest.visibility@ == "members"@
    &&& config.manifest.auth_scope@ == "site"@
    &&& config.world.enabled
    &&& config.turns is None
}

/// The configuration that harnesses use.
fn harness_config() -> (r: GameConfig)
    ensures
        is_harness_config(r),
{
    GameConfig {
        game: GameSection {
            title: "Multi User Harness".to_string(),
            slug: "multi-user-harness".to_string(),
            description: "test harness".to_string(),
            min_width: 80,
            min_height: 24,
            start_map: "harness".to_string(),
            start_x: 0,
            start_y: 0,
        },
        save: SaveSection { strategy: SaveStrategy::PerFogletUser },
        manifest: ManifestSection {
            timeout_ms: 1_800_000,
            idle_timeout_ms: 300_000,
            visibility: "members".to_string(),
            auth_scope: "site".to_string(),
        },
        world: WorldSection { enabled: true, path: "".to_string() },
        turns: None,
    }
}

/// The players of a harness to be.
#[derive(Debug)]
pub struct MultiUserHarnessBuilder {
    users: Vec<UserSpec>,
}

/// A layout for as many of the players as have handles of their own. The first
/// player without one is refused, and those behind are not looked at.
#[derive(Debug)]
pub struct HarnessPlan {
    pub harness: MultiUserHarness,
    pub refused: Option<String>,
}

/// Several players in one shared world.
#[derive(Debug)]
pub struct MultiUserHarness {
    world_db_path: String,
    config: GameConfig,
    users: Vec<HarnessUser>,
}

impl Default for MultiUserHarnessBuilder {
    fn default() -> (r: MultiUserHarnessBuilder)
        ensures
            r@ == Seq::<UserSpec>::empty(),
    {
        let users: Vec<UserSpec> = Vec::new();
        assert(users@ =~= seq![]);
        MultiUserHarnessBuilder { users }
    }
}

impl View for MultiUserHarnessBuilder {
    type V = Seq<UserSpec>;

    closed spec fn view(&self) -> Seq<UserSpec> {
        self.users@
    }
}

/// Whether a handle is one of those of a list of players.
fn find_user(users: &Vec<HarnessUser>, handle: &str) -> (r: Option<usize>)
    ensures
        match r {
            Some(i) => i < users@.len() && users@[i as int].handle@ == handle@ && forall|k: int|
                0 <= k < i ==> (#[trigger] users@[k]).handle@ != handle@,
            None => forall|k: int|
                0 <= k < users@.len() ==> (#[trigger] users@[k]).handle@ != handle@,
        },
{
    let wanted: String = handle.to_string();
    let mut i: usize = 0;
    while i < users.len()
        invariant
            i <= users@.len(),
            wanted@ == handle@,
            forall|k: int| 0 <= k < i ==> (#[trigger] users@[k]).handle@ != handle@,
        decreases users@.len() - i,
    {
        if users[i].handle == wanted {
            return Some(i);
        }
        i = i + 1;
    }
    None
}

/// The launch context of a player of the harness.
fn context_of(spec: &UserSpec) -> (r: FogletContext)
    ensures
        is_context_of(r, *spec),
{
    let mut user_id: String = "harness:".to_string();
    user_id.append(spec.handle.as_str());
    let mut session_id: String = "session:".to_string();
    session_id.append(spec.handle.as_str());
    FogletContext {
        door_id: "multi-user-harness".to_string(),
        user_id: Some(user_id),
        username: Some(spec.handle.clone()),
        role: Some(spec.role.as_token().to_string()),
        session_id: Some(session_id),
        terminal_width: 80,
        terminal_height: 24,
        source: ContextSource::LocalDev,
    }
}

impl MultiUserHarnessBuilder {
    /// Add a player.
    pub fn add_user(self, handle: impl Text, role: FogletRole) -> (r: MultiUserHarnessBuilder)
        ensures
            r@.len() == self@.len() + 1,
            r@.drop_last() == self@,
            r@.last().handle@ == handle.text(),
            r@.last().role == role,
    {
        let mut users: Vec<UserSpec> = self.users;
        users.push(UserSpec { handle: handle.into_text(), role });
        assert(users@.drop_last() =~= self.users@);
        MultiUserHarnessBuilder { users }
    }

    /// Lay out the players below a root directory, up to the first whose handle
    /// was taken before.
    pub fn plan(self, root: &str) -> (r: Result<HarnessPlan, MultiUserHarnessError>)
        ensures
            match r {
                Err(error) => self@.len() == 0 && error is NoUsers,
                Ok(plan) => {
                    &&& self@.len() > 0
                    &&& plan.harness.database()@ == joined(
                        joined(root@, "world"@),
                        "world.sqlite"@,
                    )
                    &&& is_harness_config(plan.harness.settings())
                    &&& match plan.refused {
                        Some(handle) => exists|n: int| #[trigger]
                            first_duplicate(self@, n) && handle@ == self@[n].handle@
                                && are_users_of(plan.harness.players(), self@.take(n), root@),
                        None => handles_distinct(self@) && are_users_of(
                            plan.harness.players(),
                            self@,
                            root@,
                        ),
                    }
                },
            },
    {
        let specs: Vec<UserSpec> = self.users;
        if specs.len() == 0 {
            return Err(MultiUserHarnessError::NoUsers);
        }
        let world: String = join_path(root, "world");
        let world_db_path: String = join_path(world.as_str(), "world.sqlite");
        let saves: String = join_path(root, "saves");
        let mut users: Vec<HarnessUser> = Vec::new();
        let mut i: usize = 0;
        while i < specs.len()
            invariant
                i <= specs@.len(),
                specs@.len() > 0,
                specs@ == self@,
                saves@ == joined(root@, "saves"@),
                world_db_path@ == joined(joined(root@, "world"@), "world.sqlite"@),
                handles_distinct(specs@.take(i as int)),
                are_users_of(users@, specs@.take(i as int), root@),
            decreases specs@.len() - i,
        {
            let spec: &UserSpec = &specs[i];
            match find_user(&users, spec.handle.as_str()) {
                Some(k) => {
                    proof {
                        assert(is_user_of(users@[k as int], specs@.take(i as int)[k as int], root@));
                        assert(specs@[k as int].handle@ == specs@[i as int].handle@);
                        assert(first_duplicate(specs@, i as int));
                    }
                    let refused: String = spec.handle.clone();
                    return Ok(
                        HarnessPlan {
                            harness: MultiUserHarness {
                                world_db_path,
                                config: harness_config(),
                                users,
                            },
                            refused: Some(refused),
                        },
                    );
                },
                None => {},
            }
            let user = HarnessUser {
                handle: spec.handle.clone(),
                foglet: context_of(spec),
                save_root: join_path(saves.as_str(), spec.handle.as_str()),
            };
            let ghost before = users@;
            users.push(user);
            proof {
                let upto = specs@.take(i as int);
                let next = specs@.take(i + 1);
                assert forall|k: int| 0 <= k < users@.len() implies is_user_of(
                    #[trigger] users@[k],
                    next[k],
                    root@,
                ) by {
                    if k < i {
                        assert(is_user_of(before[k], upto[k], root@));
                        assert(next[k] == upto[k]);
                    }
                }
                assert forall|a: int, b: int| 0 <= a < b < next.len() implies (
                #[trigger] next[a]).handle@ != (#[trigger] next[b]).handle@ by {
                    assert(next[a] == upto[a]);
                    if b < i {
                        assert(next[b] == upto[b]);
                    } else {
                        assert(is_user_of(before[a], upto[a], root@));
                    }
                }
            }
            i = i + 1;
        }
        assert(specs@.take(i as int) =~= specs@);
        Ok(
            HarnessPlan {
                harness: MultiUserHarness { world_db_path, config: harness_config(), users },
                refused: None,
            },
        )
    }

    /// Lay out all players below a root directory.
    pub fn build(self, root: &str) -> (r: Result<MultiUserHarness, MultiUserHarnessError>)
        ensures
            match r {
                Ok(harness) => {
                    &&& self@.len() > 0
                    &&& handles_distinct(self@)
                    &&& are_users_of(harness.players(), self@, root@)
                    &&& harness.database()@ == joined(joined(root@, "world"@), "world.sqlite"@)
                    &&& is_harness_config(harness.settings())
                },
                Err(error) => {
                    ||| self@.len() == 0 && error is NoUsers
                    ||| exists|n: int| #[trigger]
                        first_duplicate(self@, n) && (error matches
                            MultiUserHarnessError::DuplicateHandle { handle } && handle@
                            == self@[n].handle@)
                },
            },
    {
        match self.plan(root) {
            Ok(plan) => plan.finish(),
            Err(error) => Err(error),
        }
    }
}

impl HarnessPlan {
    /// The harness, if no player was refused.
    pub fn finish(self) -> (r: Result<MultiUserHarness, MultiUserHarnessError>)
        ensures
            match self.refused {
                Some(handle) => r == Err::<MultiUserHarness, MultiUserHarnessError>(
                    MultiUserHarnessError::DuplicateHandle { handle },
                ),
                None => r == Ok::<MultiUserHarness, MultiUserHarnessError>(self.harness),
            },
    {
        match self.refused {
            Some(handle) => Err(MultiUserHarnessError::DuplicateHandle { handle }),
            None => Ok(self.harness),
        }
    }
}

impl MultiUserHarness {
    /// The path of the shared world database.
    pub closed spec fn database(self) -> String {
        self.world_db_path
    }

    /// The configuration.
    pub closed spec fn settings(self) -> GameConfig {
        self.config
    }

    /// The players.
    pub closed spec fn players(self) -> Seq<HarnessUser> {
        self.users@
    }

    /// Start a harness without players.
    pub fn builder() -> (r: MultiUserHarnessBuilder)
        ensures
            r@ == Seq::<UserSpec>::empty(),
    {
        MultiUserHarnessBuilder::default()
    }

    /// The players, in the order they were added.
    pub fn users(&self) -> (r: &[HarnessUser])
        ensures
            r@ == self.players(),
    {
        self.users.as_slice()
    }

    /// The path of the shared world database.
    pub fn world_db_path(&self) -> (r: &str)
        ensures
            r@ == self.database()@,
    {
        self.world_db_path.as_str()
    }

    /// The path of the shared world database, for a player of the harness.
    pub fn world_db_path_for(&self, handle: &str) -> (r: Option<&str>)
        ensures
            match r {
                Some(path) => path@ == self.database()@ && exists|i: int|
                    0 <= i < self.players().len() && (#[trigger] self.players()[i]).handle@
                        == handle@,
                None => forall|i: int|
                    0 <= i < self.players().len() ==> (#[trigger] self.players()[i]).handle@
                        != handle@,
            },
    {
        match find_user(&self.users, handle) {
            Some(i) => {
                assert(self.players()[i as int].handle@ == handle@);
                Some(self.world_db_path.as_str())
            },
            None => None,
        }
    }

    /// The directory of a player's saves.
    pub fn save_root_for(&self, handle: &str) -> (r: Option<&str>)
        ensures
            match r {
                Some(root) => exists|i: int|
                    0 <= i < self.players().len() && (#[trigger] self.players()[i]).handle@
                        == handle@ && root@ == self.players()[i].save_root@,
                None => forall|i: int|
                    0 <= i < self.players().len() ==> (#[trigger] self.players()[i]).handle@
                        != handle@,
            },
    {
        match find_user(&self.users, handle) {
            Some(i) => {
                assert(self.players()[i as int].handle@ == handle@);
                Some(self.users[i].save_root.as_str())
            },
            None => None,
        }
    }

    /// The configuration.
    pub fn config(&self) -> (r: &GameConfig)
        ensures
            *r == self.settings(),
    {
        &self.config
    }

    /// The launch context of a player.
    pub fn foglet_for(&self, handle: &str) -> (r: Option<&FogletContext>)
        ensures
            match r {
                Some(context) => exists|i: int|
                    0 <= i < self.players().len() && (#[trigger] self.players()[i]).handle@
                        == handle@ && *context == self.players()[i].foglet,
                None => forall|i: int|
                    0 <= i < self.players().len() ==> (#[trigger] self.players()[i]).handle@
                        != handle@,
            },
    {
        match find_user(&self.users, handle) {
            Some(i) => {
                assert(self.players()[i as int].handle@ == handle@);
                Some(&self.users[i].foglet)
            },
            None => None,
        }
    }
}

/// Players of a harness share no save directory, unless a handle is an absolute
/// path.
pub proof fn save_roots_are_apart(
    users: Seq<HarnessUser>,
    specs: Seq<UserSpec>,
    root: Seq<char>,
    i: int,
    j: int,
)
    requires
        are_users_of(users, specs, root),
        handles_distinct(specs),
        0 <= i < j < users.len(),
        specs[i].handle@.len() == 0 || specs[i].handle@[0] != '/',
        specs[j].handle@.len() == 0 || specs[j].handle@[0] != '/',
    ensures
        users[i].save_root@ != users[j].save_root@,
{
    reveal_strlit("saves");
    let base = joined(root, "saves"@);
    let a = specs[i].handle@;
    let b = specs[j].handle@;
    assert(is_user_of(users[i], specs[i], root));
    assert(is_user_of(users[j], specs[j], root));
    assert(base.len() > 0 && base.last() == 's');
    if users[i].save_root@ == users[j].save_root@ {
        assert(joined(base, a).skip(base.len() as int + 1) =~= a);
        assert(joined(base, b).skip(base.len() as int + 1) =~= b);
    }
}

/// There is a first player whose handle was taken before exactly where two players
/// have the same handle, and it is the only one.
pub proof fn a_duplicate_is_noticed(specs: Seq<UserSpec>, n: int, m: int)
    ensures
        handles_distinct(specs) ==> !first_duplicate(specs, n),
        first_duplicate(specs, n) && first_duplicate(specs, m) ==> n == m,
        first_duplicate(specs, n) ==> forall|i: int, j: int|
            0 <= i < j < n ==> (#[trigger] specs[i]).handle@ != (#[trigger] specs[j]).handle@,
{
    if first_duplicate(specs, n) {
        assert forall|i: int, j: int| 0 <= i < j < n implies (#[trigger] specs[i]).handle@ != (
        #[trigger] specs[j]).handle@ by {
            assert(specs.take(n)[i] == specs[i] && specs.take(n)[j] == specs[j]);
        }
        let a = choose|a: int| 0 <= a < n && (#[trigger] specs[a]).handle@ == specs[n].handle@;
        if first_duplicate(specs, m) {
            let b = choose|b: int| 0 <= b < m && (#[trigger] specs[b]).handle@ == specs[m].handle@;
            if n < m {
                assert(specs.take(m)[a] == specs[a] && specs.take(m)[n] == specs[n]);
            } else if m < n {
                assert(specs.take(n)[b] == specs[b] && specs.take(n)[m] == specs[m]);
            }
        }
    }
}

/// Each player saves in the directory of their handle below the saves of the harness,
/// is known to the game by their handle, and has the role they were given.
pub proof fn players_are_laid_out_by_handle(
    users: Seq<HarnessUser>,
    specs: Seq<UserSpec>,
    root: Seq<char>,
    i: int,
)
    requires
        are_users_of(users, specs, root),
        0 <= i < users.len(),
        root.len() > 0,
        root.last() != '/',
        specs[i].handle@.len() == 0 || specs[i].handle@[0] != '/',
    ensures
        users.len() == specs.len(),
        users[i].handle@ == specs[i].handle@,
        users[i].save_root@ == root + "/saves/"@ + specs[i].handle@,
        opt_text(users[i].foglet.username) == Some(specs[i].handle@),
        opt_text(users[i].foglet.user_id) == Some("harness:"@ + specs[i].handle@),
        opt_text(users[i].foglet.session_id) == Some("session:"@ + specs[i].handle@),
        opt_text(users[i].foglet.role) == Some(token(specs[i].role@)),
        users[i].foglet.source == ContextSource::LocalDev,
{
    reveal_strlit("saves");
    reveal_strlit("/saves/");
    assert(is_user_of(users[i], specs[i], root));
    let base = joined(root, "saves"@);
    assert(base =~= root.push('/') + "saves"@);
    assert(base.last() == 's');
    assert(users[i].save_root@ =~= root + "/saves/"@ + specs[i].handle@);
}

/// A message names the player and the path it is about, and quotes what the system said.
pub proof fn harness_errors_quote_the_system(handle: String, path: String, said: String)
    ensures
        harness_error_text(MultiUserHarnessError::DuplicateHandle { handle })
            == "duplicate harness user handle `"@ + handle@ + "`"@,
        harness_error_text(MultiUserHarnessError::SaveRoot { handle, path, source: said })
            == "failed to create save root for `"@ + handle@ + "` at "@ + path@ + ": "@ + said@,
        harness_error_text(MultiUserHarnessError::TempDir { source: said })
            == "failed to create multi-user harness temp directory: "@ + said@,
        harness_error_text(MultiUserHarnessError::WorldDb { source: said })
            == "failed to open harness world DB: "@ + said@,
{
}

} // verus!

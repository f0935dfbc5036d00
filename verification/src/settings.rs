//! Configuration types: reaction-role messages, game queues, and the
//! lookups derived from them.
//!
//! Identifiers of the chat platform (messages, channels, roles, custom
//! emoji) are held as plain `u64` values.  Each type has a ghost model over
//! sequences so that contracts elsewhere can speak of the configuration
//! mathematically.

use vstd::prelude::*;

verus! {

broadcast use vstd::std_specs::hash::group_hash_axioms, vstd::std_specs::hash::axiom_u64_obeys_hash_table_key_model;

/// One role that can be granted by reacting, and mentioned by a queue
/// session.  Exactly one of `emoji_id` (a custom emoji) and `emoji_char`
/// (a literal emoji character) is populated in well-formed configuration.
pub struct ReactionRole {
    pub emoji_id: Option<u64>,
    pub emoji_char: Option<String>,
    pub role_id: u64,
    pub title: String,
}

/// Ghost model of a `ReactionRole`.
pub ghost struct RoleModel {
    pub emoji_id: Option<u64>,
    pub emoji_char: Option<Seq<char>>,
    pub role_id: u64,
    pub title: Seq<char>,
}

impl View for ReactionRole {
    type V = RoleModel;

    open spec fn view(&self) -> RoleModel {
        RoleModel {
            emoji_id: self.emoji_id,
            emoji_char: match self.emoji_char {
                Some(s) => Some(s@),
                None => None,
            },
            role_id: self.role_id,
            title: self.title@,
        }
    }
}

impl Clone for ReactionRole {
    fn clone(&self) -> (r: Self)
        ensures
            r@ == self@,
    {
        ReactionRole {
            emoji_id: self.emoji_id,
            emoji_char: match &self.emoji_char {
                Some(s) => Some(s.clone()),
                None => None,
            },
            role_id: self.role_id,
            title: self.title.clone(),
        }
    }
}

impl RoleModel {
    /// Exactly one of the two emoji forms is populated.
    pub open spec fn wf(self) -> bool {
        self.emoji_id is Some <==> self.emoji_char is None
    }
}

/// One reaction-role message: reacting on it with a configured emoji
/// grants the matching role.
pub struct ReactionRoles {
    pub channel_id: u64,
    pub message_id: u64,
    pub roles: Vec<ReactionRole>,
}

/// Ghost model of a `ReactionRoles` block.
pub ghost struct ReactionRolesModel {
    pub channel_id: u64,
    pub message_id: u64,
    pub roles: Seq<RoleModel>,
}

impl View for ReactionRoles {
    type V = ReactionRolesModel;

    open spec fn view(&self) -> ReactionRolesModel {
        ReactionRolesModel {
            channel_id: self.channel_id,
            message_id: self.message_id,
            roles: self.roles@.map_values(|r: ReactionRole| r@),
        }
    }
}

/// One game queue: which reaction-role message its roles come from, and
/// which titles are excluded from the queue's role menu.
pub struct GameQueues {
    pub game_name: String,
    pub roles_message_id: u64,
    pub exclude: Vec<String>,
}

/// Ghost model of a `GameQueues` entry.
pub ghost struct GameQueuesModel {
    pub game_name: Seq<char>,
    pub roles_message_id: u64,
    pub exclude: Seq<Seq<char>>,
}

impl View for GameQueues {
    type V = GameQueuesModel;

    open spec fn view(&self) -> GameQueuesModel {
        GameQueuesModel {
            game_name: self.game_name@,
            roles_message_id: self.roles_message_id,
            exclude: self.exclude@.map_values(|s: String| s@),
        }
    }
}

/// Feature switches.
pub struct Flags {
    pub deadlock_queue_start: bool,
}

/// General settings.
pub struct General {
    pub name: String,
}

/// The whole configuration.
pub struct Settings {
    pub general: General,
    pub reaction_roles: Vec<ReactionRoles>,
    pub flags: Flags,
    pub game_queue: Vec<GameQueues>,
}

/// Ghost model of `Settings`.
pub ghost struct SettingsModel {
    pub name: Seq<char>,
    pub reaction_roles: Seq<ReactionRolesModel>,
    pub deadlock_queue_start: bool,
    pub game_queue: Seq<GameQueuesModel>,
}

impl View for Settings {
    type V = SettingsModel;

    open spec fn view(&self) -> SettingsModel {
        SettingsModel {
            name: self.general.name@,
            reaction_roles: self.reaction_roles@.map_values(|b: ReactionRoles| b@),
            deadlock_queue_start: self.flags.deadlock_queue_start,
            game_queue: self.game_queue@.map_values(|q: GameQueues| q@),
        }
    }
}

/// The emoji of a reaction, as the platform reports it: either a custom
/// emoji's identifier or a literal emoji string.
pub enum EmojiKey {
    Custom(u64),
    Unicode(String),
}

/// Ghost model of an `EmojiKey`.
pub ghost enum EmojiKeyModel {
    Custom(u64),
    Unicode(Seq<char>),
}

impl View for EmojiKey {
    type V = EmojiKeyModel;

    open spec fn view(&self) -> EmojiKeyModel {
        match self {
            EmojiKey::Custom(id) => EmojiKeyModel::Custom(*id),
            EmojiKey::Unicode(s) => EmojiKeyModel::Unicode(s@),
        }
    }
}

impl EmojiKey {
    /// Whether two keys denote the same emoji.
    pub fn matches(&self, other: &EmojiKey) -> (r: bool)
        ensures
            r == (self@ == other@),
    {
        match (self, other) {
            (EmojiKey::Custom(a), EmojiKey::Custom(b)) => a == b,
            (EmojiKey::Unicode(a), EmojiKey::Unicode(b)) => *a == *b,
            _ => false,
        }
    }
}

/// One entry of the emoji lookup: on the given message, the given emoji
/// stands for the given role.
pub struct EmojiBinding {
    pub message_id: u64,
    pub key: EmojiKey,
    pub role: ReactionRole,
}

/// Ghost model of an `EmojiBinding`.
pub ghost struct EmojiBindingModel {
    pub message_id: u64,
    pub key: EmojiKeyModel,
    pub role: RoleModel,
}

impl View for EmojiBinding {
    type V = EmojiBindingModel;

    open spec fn view(&self) -> EmojiBindingModel {
        EmojiBindingModel { message_id: self.message_id, key: self.key@, role: self.role@ }
    }
}

/// The binding a single configured role contributes: its custom emoji if
/// it has one, else its literal emoji, else nothing.
pub open spec fn role_binding(message_id: u64, r: RoleModel) -> Option<EmojiBindingModel> {
    match r.emoji_id {
        Some(id) => Some(
            EmojiBindingModel { message_id, key: EmojiKeyModel::Custom(id), role: r },
        ),
        None => match r.emoji_char {
            Some(e) => Some(
                EmojiBindingModel { message_id, key: EmojiKeyModel::Unicode(e), role: r },
            ),
            None => None,
        },
    }
}

/// The bindings of one message's role list, in configuration order.
pub open spec fn roles_bindings(message_id: u64, roles: Seq<RoleModel>) -> Seq<EmojiBindingModel>
    decreases roles.len(),
{
    if roles.len() == 0 {
        Seq::empty()
    } else {
        roles_bindings(message_id, roles.drop_last()) + match role_binding(
            message_id,
            roles.last(),
        ) {
            Some(b) => seq![b],
            None => Seq::empty(),
        }
    }
}

/// The bindings of every configured reaction-role block, in configuration
/// order.
pub open spec fn settings_bindings(blocks: Seq<ReactionRolesModel>) -> Seq<EmojiBindingModel>
    decreases blocks.len(),
{
    if blocks.len() == 0 {
        Seq::empty()
    } else {
        settings_bindings(blocks.drop_last()) + roles_bindings(
            blocks.last().message_id,
            blocks.last().roles,
        )
    }
}

/// The binding in force for a message and emoji: the last matching entry,
/// as repeated insertion into a keyed map would leave it.
pub open spec fn lookup_binding(
    bindings: Seq<EmojiBindingModel>,
    message_id: u64,
    key: EmojiKeyModel,
) -> Option<EmojiBindingModel>
    decreases bindings.len(),
{
    if bindings.len() == 0 {
        None
    } else if bindings.last().message_id == message_id && bindings.last().key == key {
        Some(bindings.last())
    } else {
        lookup_binding(bindings.drop_last(), message_id, key)
    }
}

/// The emoji-to-role lookup derived from the configuration: which emoji on
/// which message stands for which role.
pub struct EmojiRoleLookup {
    pub bindings: Vec<EmojiBinding>,
}

impl View for EmojiRoleLookup {
    type V = Seq<EmojiBindingModel>;

    open spec fn view(&self) -> Seq<EmojiBindingModel> {
        self.bindings@.map_values(|b: EmojiBinding| b@)
    }
}

impl EmojiRoleLookup {
    /// The role granted by reacting with `key` on `message_id`, if any.
    pub fn get(&self, message_id: u64, key: &EmojiKey) -> (r: Option<&ReactionRole>)
        ensures
            match lookup_binding(self@, message_id, key@) {
                Some(b) => r is Some && r->0@ == b.role,
                None => r is None,
            },
    {
        let mut found: Option<&ReactionRole> = None;
        let n = self.bindings.len();
        let mut i: usize = 0;
        while i < n
            invariant
                0 <= i <= n == self.bindings@.len(),
                match lookup_binding(self@.subrange(0, i as int), message_id, key@) {
                    Some(b) => found is Some && found->0@ == b.role,
                    None => found is None,
                },
            decreases n - i,
        {
            let b = &self.bindings[i];
            proof {
                assert(self@.subrange(0, i + 1).drop_last() =~= self@.subrange(0, i as int));
                assert(self@.subrange(0, i + 1).last() == self.bindings@[i as int]@);
            }
            if b.message_id == message_id && b.key.matches(key) {
                found = Some(&b.role);
            }
            i = i + 1;
        }
        proof {
            assert(self@.subrange(0, n as int) =~= self@);
        }
        found
    }
}

/// The message-to-channel map derived from the configuration: each block's
/// message mapped to its channel, later blocks overriding earlier ones.
pub open spec fn channel_map(blocks: Seq<ReactionRolesModel>) -> Map<u64, u64>
    decreases blocks.len(),
{
    if blocks.len() == 0 {
        Map::empty()
    } else {
        channel_map(blocks.drop_last()).insert(
            blocks.last().message_id,
            blocks.last().channel_id,
        )
    }
}

impl Settings {
    /// The channel each reaction-role message lives in.
    pub fn message_id_to_channel_id(&self) -> (m: std::collections::HashMap<u64, u64>)
        ensures
            m@ == channel_map(self@.reaction_roles),
    {
        let mut m: std::collections::HashMap<u64, u64> = std::collections::HashMap::new();
        let n = self.reaction_roles.len();
        let mut i: usize = 0;
        while i < n
            invariant
                0 <= i <= n == self.reaction_roles@.len(),
                m@ == channel_map(self@.reaction_roles.subrange(0, i as int)),
            decreases n - i,
        {
            let block = &self.reaction_roles[i];
            proof {
                assert(self@.reaction_roles.subrange(0, i + 1).drop_last() =~= self@
                    .reaction_roles.subrange(0, i as int));
                assert(self@.reaction_roles.subrange(0, i + 1).last() == self.reaction_roles@[
                    i as int
                ]@);
            }
            m.insert(block.message_id, block.channel_id);
            i = i + 1;
        }
        proof {
            assert(self@.reaction_roles.subrange(0, n as int) =~= self@.reaction_roles);
        }
        m
    }

    /// The emoji-to-role lookup for every reaction-role message, in
    /// configuration order.
    pub fn message_id_to_emoji_reaction_to_reactionrole_lookup(&self) -> (r: EmojiRoleLookup)
        ensures
            r@ == settings_bindings(self@.reaction_roles),
    {
        let mut bindings: Vec<EmojiBinding> = Vec::new();
        let n = self.reaction_roles.len();
        let mut i: usize = 0;
        while i < n
            invariant
                0 <= i <= n == self.reaction_roles@.len(),
                bindings@.map_values(|b: EmojiBinding| b@) == settings_bindings(
                    self@.reaction_roles.subrange(0, i as int),
                ),
            decreases n - i,
        {
            let block = &self.reaction_roles[i];
            let mid = block.message_id;
            let k = block.roles.len();
            let mut j: usize = 0;
            while j < k
                invariant
                    0 <= j <= k == block.roles@.len(),
                    block == &self.reaction_roles[i as int],
                    0 <= i < n == self.reaction_roles@.len(),
                    mid == block.message_id,
                    bindings@.map_values(|b: EmojiBinding| b@) == settings_bindings(
                        self@.reaction_roles.subrange(0, i as int),
                    ) + roles_bindings(mid, block@.roles.subrange(0, j as int)),
                decreases k - j,
            {
                let role = &block.roles[j];
                proof {
                    assert(block@.roles.subrange(0, j + 1).drop_last() =~= block@.roles.subrange(
                        0,
                        j as int,
                    ));
                    assert(block@.roles.subrange(0, j + 1).last() == block.roles@[j as int]@);
                }
                let ghost before = bindings@.map_values(|b: EmojiBinding| b@);
                if let Some(id) = role.emoji_id {
                    bindings.push(
                        EmojiBinding {
                            message_id: mid,
                            key: EmojiKey::Custom(id),
                            role: role.clone(),
                        },
                    );
                    proof {
                        assert(bindings@.map_values(|b: EmojiBinding| b@) =~= before.push(
                            role_binding(mid, role@)->0,
                        ));
                    }
                } else if let Some(e) = &role.emoji_char {
                    bindings.push(
                        EmojiBinding {
                            message_id: mid,
                            key: EmojiKey::Unicode(e.clone()),
                            role: role.clone(),
                        },
                    );
                    proof {
                        assert(bindings@.map_values(|b: EmojiBinding| b@) =~= before.push(
                            role_binding(mid, role@)->0,
                        ));
                    }
                }
                proof {
                    assert(bindings@.map_values(|b: EmojiBinding| b@) =~= settings_bindings(
                        self@.reaction_roles.subrange(0, i as int),
                    ) + roles_bindings(mid, block@.roles.subrange(0, j + 1)));
                }
                j = j + 1;
            }
            proof {
                assert(block@.roles.subrange(0, k as int) =~= block@.roles);
                assert(self@.reaction_roles.subrange(0, i + 1).drop_last() =~= self@
                    .reaction_roles.subrange(0, i as int));
                assert(self@.reaction_roles.subrange(0, i + 1).last() == self.reaction_roles@[
                    i as int
                ]@);
            }
            i = i + 1;
        }
        proof {
            assert(self@.reaction_roles.subrange(0, n as int) =~= self@.reaction_roles);
        }
        EmojiRoleLookup { bindings }
    }
}

} // verus!

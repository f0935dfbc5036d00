//! The queue session and its workflow state machine.
//!
//! One `Session` is one end-to-end run of the queue workflow for one
//! inviting user.  The workflow itself is an explicit state machine: a
//! driver feeds `Event`s into [`step`] and performs the `Action`s it
//! returns.  Every transition is pinned down by [`step_model`], a ghost
//! transition function, so properties of whole runs can be proved once and
//! for all.

use vstd::prelude::*;

use crate::numfmt::{dec_digits, dec_val, is_dec_string, parse_u64};
use crate::prompts::{
    duration_prompt, duration_prompt_model, roles_prompt, roles_prompt_model, PromptModel,
    PromptStep,
};
use crate::render::{message_text, render, Phase, RenderedMessage};
use crate::roster::{toggle_spec, Roster};
use crate::settings::{ReactionRole, RoleModel};

verus! {

/// How long a match is assumed to take, in seconds.
pub const APPROX_MATCH_LENGTH_SECS: u64 = 2400;

/// One run of the queue workflow.
pub struct Session {
    /// Display name of the user who started the queue.
    pub inviting_user: String,
    /// The group whose roles are being queued for.
    pub group_name: String,
    /// The chosen wait before the queue starts, in seconds.
    pub wait_secs: u64,
    /// The roles chosen for mention.
    pub roles: Vec<ReactionRole>,
    /// Unix timestamp at which the announcement was made.
    pub start_secs: u64,
}

/// Ghost model of a `Session`.
pub ghost struct SessionModel {
    pub inviting_user: Seq<char>,
    pub group_name: Seq<char>,
    pub wait_secs: u64,
    pub roles: Seq<RoleModel>,
    pub start_secs: u64,
}

impl View for Session {
    type V = SessionModel;

    open spec fn view(&self) -> SessionModel {
        SessionModel {
            inviting_user: self.inviting_user@,
            group_name: self.group_name@,
            wait_secs: self.wait_secs,
            roles: self.roles@.map_values(|r: ReactionRole| r@),
            start_secs: self.start_secs,
        }
    }
}

impl SessionModel {
    /// The timestamps the session schedules stay within `u64`, and every
    /// selected role carries exactly one emoji form.
    pub open spec fn wf(self) -> bool {
        &&& self.start_secs + self.wait_secs + APPROX_MATCH_LENGTH_SECS <= u64::MAX
        &&& forall|i: int| 0 <= i < self.roles.len() ==> (#[trigger] self.roles[i]).wf()
    }
}

/// The ghost models of a sequence of roles.
pub open spec fn role_views(roles: Seq<ReactionRole>) -> Seq<RoleModel> {
    roles.map_values(|r: ReactionRole| r@)
}

/// The ghost models of a sequence of strings.
pub open spec fn string_views(ss: Seq<String>) -> Seq<Seq<char>> {
    ss.map_values(|s: String| s@)
}

/// Why a session ended without completing.
#[derive(Clone, Copy, PartialEq, Eq, Structural, Debug)]
pub enum SessionError {
    /// A response held a value this workflow cannot process: a duration
    /// that is not a whole number of seconds (or cannot be scheduled), or
    /// a role identifier absent from the directory.
    MalformedSelection,
    /// A call to an external collaborator failed; the rest of the workflow
    /// is aborted.
    CapabilityFailure,
}

/// What a queue session is built from: the inviting user, the fixed group,
/// and the group's directory entries.
pub struct QueueConfig {
    pub inviting_user: String,
    pub group_name: String,
    pub roles: Vec<ReactionRole>,
}

/// Ghost model of a `QueueConfig`.
pub ghost struct ConfigModel {
    pub inviting_user: Seq<char>,
    pub group_name: Seq<char>,
    pub roles: Seq<RoleModel>,
}

impl View for QueueConfig {
    type V = ConfigModel;

    open spec fn view(&self) -> ConfigModel {
        ConfigModel {
            inviting_user: self.inviting_user@,
            group_name: self.group_name@,
            roles: role_views(self.roles@),
        }
    }
}

impl ConfigModel {
    /// At least one role to offer, each with exactly one emoji form.
    pub open spec fn wf(self) -> bool {
        &&& self.roles.len() >= 1
        &&& forall|i: int| 0 <= i < self.roles.len() ==> (#[trigger] self.roles[i]).wf()
    }
}

/// Why a queue configuration was rejected.
#[derive(Clone, Copy, PartialEq, Eq, Structural, Debug)]
pub enum ConfigError {
    /// The directory yielded no roles to offer.
    NoRoles,
    /// A directory entry does not carry exactly one emoji form.
    MalformedRole,
}

impl QueueConfig {
    /// Validates directory entries into a queue configuration: there must
    /// be at least one role, and every role must carry exactly one emoji
    /// form.
    pub fn new(inviting_user: String, group_name: String, roles: Vec<ReactionRole>) -> (r: Result<
        QueueConfig,
        ConfigError,
    >)
        ensures
            match r {
                Ok(cfg) => cfg@.wf() && cfg@.inviting_user == inviting_user@ && cfg@.group_name
                    == group_name@ && cfg@.roles == role_views(roles@),
                Err(e) => {
                    ||| e == ConfigError::NoRoles && roles@.len() == 0
                    ||| e == ConfigError::MalformedRole && exists|i: int|
                        0 <= i < roles@.len() && !(#[trigger] role_views(roles@)[i]).wf()
                },
            },
    {
        if roles.len() == 0 {
            return Err(ConfigError::NoRoles);
        }
        let n = roles.len();
        let mut i: usize = 0;
        while i < n
            invariant
                0 <= i <= n == roles@.len(),
                forall|j: int| 0 <= j < i ==> (#[trigger] role_views(roles@)[j]).wf(),
            decreases n - i,
        {
            let role = &roles[i];
            if role.emoji_id.is_some() == role.emoji_char.is_some() {
                proof {
                    assert(!role_views(roles@)[i as int].wf());
                }
                return Err(ConfigError::MalformedRole);
            }
            proof {
                assert(role_views(roles@)[i as int].wf());
            }
            i = i + 1;
        }
        Ok(QueueConfig { inviting_user, group_name, roles })
    }
}

/// An input to the workflow: a prompt answer, a timeout, the end of a
/// timed wait, or a toggle press.
pub enum Event {
    /// The recipient answered the wait-duration prompt with the given raw
    /// values.
    DurationChosen { values: Vec<String> },
    /// The recipient answered the role prompt; `now_secs` is the current
    /// unix timestamp, which becomes the session's start.
    RolesChosen { values: Vec<String>, now_secs: u64 },
    /// The outstanding prompt timed out with no answer.
    PromptTimedOut,
    /// The post-announcement wait has elapsed.
    WaitElapsed,
    /// A user pressed the join-next-game toggle.
    ToggleSignal { user_id: u64 },
    /// The roster-collection window has elapsed.
    WindowElapsed,
    /// A call to an external collaborator failed.
    CapabilityFailed,
}

/// Ghost model of an `Event`.
pub ghost enum EventModel {
    DurationChosen { values: Seq<Seq<char>> },
    RolesChosen { values: Seq<Seq<char>>, now_secs: u64 },
    PromptTimedOut,
    WaitElapsed,
    ToggleSignal { user_id: u64 },
    WindowElapsed,
    CapabilityFailed,
}

impl View for Event {
    type V = EventModel;

    open spec fn view(&self) -> EventModel {
        match self {
            Event::DurationChosen { values } => EventModel::DurationChosen {
                values: string_views(values@),
            },
            Event::RolesChosen { values, now_secs } => EventModel::RolesChosen {
                values: string_views(values@),
                now_secs: *now_secs,
            },
            Event::PromptTimedOut => EventModel::PromptTimedOut,
            Event::WaitElapsed => EventModel::WaitElapsed,
            Event::ToggleSignal { user_id } => EventModel::ToggleSignal { user_id: *user_id },
            Event::WindowElapsed => EventModel::WindowElapsed,
            Event::CapabilityFailed => EventModel::CapabilityFailed,
        }
    }
}

/// Where the workflow stands.
pub enum SessionState {
    /// The wait-duration prompt is outstanding.
    AwaitingDuration,
    /// The role prompt is outstanding.
    AwaitingRoles { wait_secs: u64 },
    /// The public announcement is up; waiting out the chosen duration.
    Announced { session: Session },
    /// The toggle is live; the roster is being collected.
    MatchStarting { session: Session, roster: Roster },
    /// The session completed; the final edit has been issued.
    Closed,
    /// A prompt timed out; the workflow ended silently.
    Abandoned,
    /// The session ended on an error.
    Failed { error: SessionError },
}

/// Ghost model of a `SessionState`.
pub ghost enum StateModel {
    AwaitingDuration,
    AwaitingRoles { wait_secs: u64 },
    Announced { session: SessionModel },
    MatchStarting { session: SessionModel, roster: Seq<u64> },
    Closed,
    Abandoned,
    Failed { error: SessionError },
}

impl View for SessionState {
    type V = StateModel;

    open spec fn view(&self) -> StateModel {
        match self {
            SessionState::AwaitingDuration => StateModel::AwaitingDuration,
            SessionState::AwaitingRoles { wait_secs } => StateModel::AwaitingRoles {
                wait_secs: *wait_secs,
            },
            SessionState::Announced { session } => StateModel::Announced { session: session@ },
            SessionState::MatchStarting { session, roster } => StateModel::MatchStarting {
                session: session@,
                roster: roster@,
            },
            SessionState::Closed => StateModel::Closed,
            SessionState::Abandoned => StateModel::Abandoned,
            SessionState::Failed { error } => StateModel::Failed { error: *error },
        }
    }
}

/// The session data carried by a state is well formed, and the roster
/// never holds duplicates.
pub open spec fn state_wf(st: StateModel) -> bool {
    match st {
        StateModel::Announced { session } => session.wf(),
        StateModel::MatchStarting { session, roster } => session.wf() && roster.no_duplicates(),
        _ => true,
    }
}

/// What the driver must do after a step.
pub enum Action {
    /// Send the ephemeral wait-duration prompt to the inviting user.
    ShowDurationPrompt { prompt: PromptStep },
    /// Update the ephemeral prompt in place to the role menu.
    ShowRolePrompt { prompt: PromptStep },
    /// Delete the outstanding ephemeral prompt.
    DeleteEphemeral,
    /// Close out the answered prompt so the recipient sees no error.
    AcknowledgeSelection,
    /// Post the public announcement as a new message.
    PostAnnouncement { message: RenderedMessage },
    /// Suspend this session for the given number of seconds.
    Delay { secs: u64 },
    /// Edit the public announcement in place.
    EditAnnouncement { message: RenderedMessage },
    /// Collect toggle presses for the given window, feeding each back as a
    /// `ToggleSignal`, then `WindowElapsed`.
    AwaitToggles { window_secs: u64 },
    /// Acknowledge a toggle press so the requester sees no error.
    AcknowledgeToggle,
}

/// Ghost model of an `Action`.
pub ghost enum ActionModel {
    ShowDurationPrompt { prompt: PromptModel },
    ShowRolePrompt { prompt: PromptModel },
    DeleteEphemeral,
    AcknowledgeSelection,
    PostAnnouncement { text: Seq<char>, has_toggle: bool },
    Delay { secs: u64 },
    EditAnnouncement { text: Seq<char>, has_toggle: bool },
    AwaitToggles { window_secs: u64 },
    AcknowledgeToggle,
}

impl View for Action {
    type V = ActionModel;

    open spec fn view(&self) -> ActionModel {
        match self {
            Action::ShowDurationPrompt { prompt } => ActionModel::ShowDurationPrompt {
                prompt: prompt@,
            },
            Action::ShowRolePrompt { prompt } => ActionModel::ShowRolePrompt { prompt: prompt@ },
            Action::DeleteEphemeral => ActionModel::DeleteEphemeral,
            Action::AcknowledgeSelection => ActionModel::AcknowledgeSelection,
            Action::PostAnnouncement { message } => ActionModel::PostAnnouncement {
                text: message.text@,
                has_toggle: message.has_toggle,
            },
            Action::Delay { secs } => ActionModel::Delay { secs: *secs },
            Action::EditAnnouncement { message } => ActionModel::EditAnnouncement {
                text: message.text@,
                has_toggle: message.has_toggle,
            },
            Action::AwaitToggles { window_secs } => ActionModel::AwaitToggles {
                window_secs: *window_secs,
            },
            Action::AcknowledgeToggle => ActionModel::AcknowledgeToggle,
        }
    }
}

/// The ghost models of a sequence of actions.
pub open spec fn actions_view(acts: Seq<Action>) -> Seq<ActionModel> {
    acts.map_values(|a: Action| a@)
}

/// The wait duration a prompt answer denotes: its first value read as a
/// whole number of seconds, if it is one and fits in a `u64`.
pub open spec fn parse_duration_model(values: Seq<Seq<char>>) -> Option<u64> {
    if values.len() >= 1 && is_dec_string(values[0]) && dec_val(values[0]) <= u64::MAX {
        Some(dec_val(values[0]) as u64)
    } else {
        None
    }
}

/// Reads a duration prompt answer.
pub fn parse_duration(values: &Vec<String>) -> (r: Option<u64>)
    ensures
        r == parse_duration_model(string_views(values@)),
{
    if values.len() == 0 {
        return None;
    }
    proof {
        assert(string_views(values@)[0] == values@[0]@);
    }
    parse_u64(values[0].as_str())
}

/// The first directory entry whose role identifier, written in decimal,
/// equals `value`.
pub open spec fn find_role(roles: Seq<RoleModel>, value: Seq<char>) -> Option<RoleModel>
    decreases roles.len(),
{
    if roles.len() == 0 {
        None
    } else if dec_digits(roles[0].role_id as nat) == value {
        Some(roles[0])
    } else {
        find_role(roles.drop_first(), value)
    }
}

proof fn lemma_find_role_at(roles: Seq<RoleModel>, value: Seq<char>, i: int)
    requires
        0 <= i < roles.len(),
        dec_digits(roles[i].role_id as nat) == value,
        forall|j: int| 0 <= j < i ==> dec_digits(roles[j].role_id as nat) != value,
    ensures
        find_role(roles, value) == Some(roles[i]),
    decreases i,
{
    if i > 0 {
        lemma_find_role_at(roles.drop_first(), value, i - 1);
    }
}

proof fn lemma_find_role_none(roles: Seq<RoleModel>, value: Seq<char>)
    requires
        forall|j: int| 0 <= j < roles.len() ==> dec_digits(roles[j].role_id as nat) != value,
    ensures
        find_role(roles, value) is None,
    decreases roles.len(),
{
    if roles.len() > 0 {
        lemma_find_role_none(roles.drop_first(), value);
    }
}

/// A found role is one of the directory's entries.
proof fn lemma_find_role_elem(roles: Seq<RoleModel>, value: Seq<char>)
    requires
        find_role(roles, value) is Some,
    ensures
        roles.contains(find_role(roles, value)->0),
    decreases roles.len(),
{
    if roles.len() > 0 && dec_digits(roles[0].role_id as nat) != value {
        lemma_find_role_elem(roles.drop_first(), value);
        let r = find_role(roles, value)->0;
        let k = choose|k: int| 0 <= k < roles.drop_first().len() && roles.drop_first()[k] == r;
        assert(roles[k + 1] == r);
    }
}

/// The roles a role-prompt answer denotes: each raw value resolved back to
/// the first directory entry it names, in answer order; nothing if any
/// value names no entry.
pub open spec fn resolve_roles_model(roles: Seq<RoleModel>, values: Seq<Seq<char>>) -> Option<
    Seq<RoleModel>,
>
    decreases values.len(),
{
    if values.len() == 0 {
        Some(Seq::empty())
    } else {
        match resolve_roles_model(roles, values.drop_last()) {
            None => None,
            Some(rs) => match find_role(roles, values.last()) {
                None => None,
                Some(r) => Some(rs.push(r)),
            },
        }
    }
}

/// If any single value fails to resolve, the whole answer fails.
proof fn lemma_resolve_none(roles: Seq<RoleModel>, values: Seq<Seq<char>>, k: int)
    requires
        0 <= k < values.len(),
        find_role(roles, values[k]) is None,
    ensures
        resolve_roles_model(roles, values) is None,
    decreases values.len(),
{
    if k < values.len() - 1 {
        lemma_resolve_none(roles, values.drop_last(), k);
    }
}

/// Every resolved role is one of the directory's entries.
proof fn lemma_resolve_elems(roles: Seq<RoleModel>, values: Seq<Seq<char>>)
    requires
        resolve_roles_model(roles, values) is Some,
    ensures
        forall|i: int|
            0 <= i < resolve_roles_model(roles, values)->0.len() ==> roles.contains(
                #[trigger] resolve_roles_model(roles, values)->0[i],
            ),
        resolve_roles_model(roles, values)->0.len() == values.len(),
    decreases values.len(),
{
    if values.len() > 0 {
        lemma_resolve_elems(roles, values.drop_last());
        lemma_find_role_elem(roles, values.last());
    }
}

/// Resolves a role-prompt answer against the directory.
pub fn resolve_roles(roles: &Vec<ReactionRole>, values: &Vec<String>) -> (r: Option<
    Vec<ReactionRole>,
>)
    ensures
        match resolve_roles_model(role_views(roles@), string_views(values@)) {
            None => r is None,
            Some(ms) => r is Some && role_views(r->0@) == ms,
        },
{
    let ghost rolesm = role_views(roles@);
    let ghost valuesm = string_views(values@);
    let mut out: Vec<ReactionRole> = Vec::new();
    let n_values = values.len();
    let mut k: usize = 0;
    while k < n_values
        invariant
            0 <= k <= n_values == values@.len(),
            rolesm == role_views(roles@),
            valuesm == string_views(values@),
            resolve_roles_model(rolesm, valuesm.take(k as int)) == Some(role_views(out@)),
        decreases n_values - k,
    {
        let value = &values[k];
        proof {
            assert(valuesm[k as int] == values@[k as int]@);
        }
        let n_roles = roles.len();
        let mut i: usize = 0;
        let mut found_at: Option<usize> = None;
        while i < n_roles
            invariant
                0 <= i <= n_roles == roles@.len(),
                rolesm == role_views(roles@),
                value == &values@[k as int],
                0 <= k < values@.len(),
                valuesm == string_views(values@),
                match found_at {
                    None => forall|j: int|
                        0 <= j < i ==> dec_digits(
                            (#[trigger] rolesm[j]).role_id as nat,
                        ) != valuesm[k as int],
                    Some(f) => f < i && dec_digits(rolesm[f as int].role_id as nat) == valuesm[
                        k as int
                    ] && (forall|j: int|
                        0 <= j < f ==> dec_digits(
                            (#[trigger] rolesm[j]).role_id as nat,
                        ) != valuesm[k as int]),
                },
            decreases n_roles - i,
        {
            if found_at.is_none() {
                let d = crate::numfmt::u64_to_dec(roles[i].role_id);
                if d == *value {
                    proof {
                        assert(rolesm[i as int] == roles@[i as int]@);
                    }
                    found_at = Some(i);
                }
            }
            i = i + 1;
        }
        let f = match found_at {
            None => {
                proof {
                    lemma_find_role_none(rolesm, valuesm[k as int]);
                    lemma_resolve_none(rolesm, valuesm, k as int);
                }
                return None;
            },
            Some(f) => f,
        };
        let ghost prev = out@;
        out.push(roles[f].clone());
        proof {
            lemma_find_role_at(rolesm, valuesm[k as int], f as int);
            prev.lemma_push_map_commute(|r: ReactionRole| r@, out@[out@.len() - 1]);
            assert(role_views(out@) =~= role_views(prev).push(rolesm[f as int]));
            assert(valuesm.take(k as int + 1).drop_last() =~= valuesm.take(k as int));
            assert(valuesm.take(k as int + 1).last() == valuesm[k as int]);
            assert(resolve_roles_model(rolesm, valuesm.take(k as int + 1)) == Some(
                role_views(out@),
            ));
        }
        k = k + 1;
    }
    proof {
        assert(valuesm.take(n_values as int) =~= valuesm);
    }
    Some(out)
}

/// The roster-collection window: the match-length constant minus the wait,
/// clamped at zero.
pub open spec fn window_secs_model(wait_secs: u64) -> u64 {
    if wait_secs >= APPROX_MATCH_LENGTH_SECS {
        0
    } else {
        (APPROX_MATCH_LENGTH_SECS - wait_secs) as u64
    }
}

/// The whole workflow, one transition at a time.  Given where the session
/// stands and what happened, yields where it stands next and what the
/// driver must do.  Timed-out prompts abandon the session silently; a
/// malformed answer fails it before anything public exists; terminal
/// states ignore every event.
pub open spec fn step_model(st: StateModel, ev: EventModel, cfg: ConfigModel) -> (
    StateModel,
    Seq<ActionModel>,
) {
    match st {
        StateModel::AwaitingDuration => match ev {
            EventModel::DurationChosen { values } => match parse_duration_model(values) {
                Some(wait) => (
                    StateModel::AwaitingRoles { wait_secs: wait },
                    seq![ActionModel::ShowRolePrompt { prompt: roles_prompt_model(cfg.roles) }],
                ),
                None => (
                    StateModel::Failed { error: SessionError::MalformedSelection },
                    seq![ActionModel::DeleteEphemeral],
                ),
            },
            EventModel::PromptTimedOut => (
                StateModel::Abandoned,
                seq![ActionModel::DeleteEphemeral],
            ),
            EventModel::CapabilityFailed => (
                StateModel::Failed { error: SessionError::CapabilityFailure },
                Seq::empty(),
            ),
            _ => (st, Seq::empty()),
        },
        StateModel::AwaitingRoles { wait_secs } => match ev {
            EventModel::RolesChosen { values, now_secs } => {
                if values.len() == 0 || now_secs + wait_secs + APPROX_MATCH_LENGTH_SECS
                    > u64::MAX {
                    (
                        StateModel::Failed { error: SessionError::MalformedSelection },
                        seq![ActionModel::DeleteEphemeral],
                    )
                } else {
                    match resolve_roles_model(cfg.roles, values) {
                        None => (
                            StateModel::Failed { error: SessionError::MalformedSelection },
                            seq![ActionModel::DeleteEphemeral],
                        ),
                        Some(rs) => {
                            let session = SessionModel {
                                inviting_user: cfg.inviting_user,
                                group_name: cfg.group_name,
                                wait_secs,
                                roles: rs,
                                start_secs: now_secs,
                            };
                            (
                                StateModel::Announced { session },
                                seq![
                                    ActionModel::AcknowledgeSelection,
                                    ActionModel::PostAnnouncement {
                                        text: message_text(
                                            session,
                                            Phase::Queueing,
                                            Seq::empty(),
                                        ),
                                        has_toggle: false,
                                    },
                                    ActionModel::DeleteEphemeral,
                                    ActionModel::Delay { secs: wait_secs },
                                ],
                            )
                        },
                    }
                }
            },
            EventModel::PromptTimedOut => (
                StateModel::Abandoned,
                seq![ActionModel::DeleteEphemeral],
            ),
            EventModel::CapabilityFailed => (
                StateModel::Failed { error: SessionError::CapabilityFailure },
                Seq::empty(),
            ),
            _ => (st, Seq::empty()),
        },
        StateModel::Announced { session } => match ev {
            EventModel::WaitElapsed => {
                let w = window_secs_model(session.wait_secs);
                if w > 0 {
                    (
                        StateModel::MatchStarting { session, roster: Seq::empty() },
                        seq![
                            ActionModel::EditAnnouncement {
                                text: message_text(
                                    session,
                                    Phase::MatchStarting,
                                    Seq::empty(),
                                ),
                                has_toggle: true,
                            },
                            ActionModel::AwaitToggles { window_secs: w },
                        ],
                    )
                } else {
                    (
                        StateModel::Closed,
                        seq![
                            ActionModel::EditAnnouncement {
                                text: message_text(
                                    session,
                                    Phase::MatchStarting,
                                    Seq::empty(),
                                ),
                                has_toggle: true,
                            },
                            ActionModel::EditAnnouncement {
                                text: message_text(session, Phase::Closed, Seq::empty()),
                                has_toggle: false,
                            },
                        ],
                    )
                }
            },
            EventModel::CapabilityFailed => (
                StateModel::Failed { error: SessionError::CapabilityFailure },
                Seq::empty(),
            ),
            _ => (st, Seq::empty()),
        },
        StateModel::MatchStarting { session, roster } => match ev {
            EventModel::ToggleSignal { user_id } => {
                let r2 = toggle_spec(roster, user_id);
                (
                    StateModel::MatchStarting { session, roster: r2 },
                    seq![
                        ActionModel::AcknowledgeToggle,
                        ActionModel::EditAnnouncement {
                            text: message_text(session, Phase::MatchStarting, r2),
                            has_toggle: true,
                        },
                    ],
                )
            },
            EventModel::WindowElapsed => (
                StateModel::Closed,
                seq![
                    ActionModel::EditAnnouncement {
                        text: message_text(session, Phase::Closed, roster),
                        has_toggle: false,
                    },
                ],
            ),
            EventModel::CapabilityFailed => (
                StateModel::Failed { error: SessionError::CapabilityFailure },
                Seq::empty(),
            ),
            _ => (st, Seq::empty()),
        },
        _ => (st, Seq::empty()),
    }
}

/// Where a fresh session starts: awaiting the duration choice, with the
/// duration prompt to show.
pub open spec fn start_model() -> (StateModel, Seq<ActionModel>) {
    (
        StateModel::AwaitingDuration,
        seq![ActionModel::ShowDurationPrompt { prompt: duration_prompt_model() }],
    )
}

/// Begins a session: the driver shows the returned prompt and awaits the
/// duration choice.
pub fn start() -> (r: (SessionState, Vec<Action>))
    ensures
        r.0@ == start_model().0,
        actions_view(r.1@) == start_model().1,
        state_wf(r.0@),
{
    let prompt = duration_prompt();
    let actions = vec![Action::ShowDurationPrompt { prompt }];
    proof {
        assert(actions_view(actions@) =~= start_model().1);
    }
    (SessionState::AwaitingDuration, actions)
}

/// Advances the session by one event, exactly as `step_model` prescribes.
pub fn step(st: SessionState, ev: Event, cfg: &QueueConfig) -> (r: (SessionState, Vec<Action>))
    requires
        cfg@.wf(),
        state_wf(st@),
    ensures
        r.0@ == step_model(st@, ev@, cfg@).0,
        actions_view(r.1@) == step_model(st@, ev@, cfg@).1,
        state_wf(r.0@),
{
    let ghost stm = st@;
    let ghost evm = ev@;
    let ghost cfgm = cfg@;
    match st {
        SessionState::AwaitingDuration => match ev {
            Event::DurationChosen { values } => match parse_duration(&values) {
                Some(wait) => {
                    let prompt = roles_prompt(&cfg.roles);
                    let actions = vec![Action::ShowRolePrompt { prompt }];
                    proof {
                        assert(actions_view(actions@) =~= step_model(stm, evm, cfgm).1);
                    }
                    (SessionState::AwaitingRoles { wait_secs: wait }, actions)
                },
                None => {
                    let actions = vec![Action::DeleteEphemeral];
                    proof {
                        assert(actions_view(actions@) =~= step_model(stm, evm, cfgm).1);
                    }
                    (
                        SessionState::Failed { error: SessionError::MalformedSelection },
                        actions,
                    )
                },
            },
            Event::PromptTimedOut => {
                let actions = vec![Action::DeleteEphemeral];
                proof {
                    assert(actions_view(actions@) =~= step_model(stm, evm, cfgm).1);
                }
                (SessionState::Abandoned, actions)
            },
            Event::CapabilityFailed => {
                (SessionState::Failed { error: SessionError::CapabilityFailure }, Vec::new())
            },
            _ => {
                (SessionState::AwaitingDuration, Vec::new())
            },
        },
        SessionState::AwaitingRoles { wait_secs } => match ev {
            Event::RolesChosen { values, now_secs } => {
                let overflow = wait_secs > u64::MAX - APPROX_MATCH_LENGTH_SECS || now_secs
                    > u64::MAX - APPROX_MATCH_LENGTH_SECS - wait_secs;
                if values.len() == 0 || overflow {
                    let actions = vec![Action::DeleteEphemeral];
                    proof {
                        assert(actions_view(actions@) =~= step_model(stm, evm, cfgm).1);
                    }
                    (
                        SessionState::Failed { error: SessionError::MalformedSelection },
                        actions,
                    )
                } else {
                    match resolve_roles(&cfg.roles, &values) {
                        None => {
                            let actions = vec![Action::DeleteEphemeral];
                            proof {
                                assert(actions_view(actions@) =~= step_model(stm, evm, cfgm).1);
                            }
                            (
                                SessionState::Failed {
                                    error: SessionError::MalformedSelection,
                                },
                                actions,
                            )
                        },
                        Some(resolved) => {
                            let session = Session {
                                inviting_user: cfg.inviting_user.clone(),
                                group_name: cfg.group_name.clone(),
                                wait_secs,
                                roles: resolved,
                                start_secs: now_secs,
                            };
                            proof {
                                let rs = resolve_roles_model(
                                    cfgm.roles,
                                    string_views(values@),
                                )->0;
                                lemma_resolve_elems(cfgm.roles, string_views(values@));
                                assert forall|i: int|
                                    0 <= i < rs.len() implies (#[trigger] rs[i]).wf() by {
                                    let j = choose|j: int|
                                        0 <= j < cfgm.roles.len() && cfgm.roles[j] == rs[i];
                                    assert(cfgm.roles[j].wf());
                                }
                                assert(session@.roles == rs);
                                assert(session@.wf());
                            }
                            let empty = Roster::new();
                            let message = render(&session, Phase::Queueing, &empty);
                            let actions = vec![
                                Action::AcknowledgeSelection,
                                Action::PostAnnouncement { message },
                                Action::DeleteEphemeral,
                                Action::Delay { secs: wait_secs },
                            ];
                            proof {
                                assert(actions_view(actions@) =~= step_model(
                                    stm,
                                    evm,
                                    cfgm,
                                ).1);
                            }
                            (SessionState::Announced { session }, actions)
                        },
                    }
                }
            },
            Event::PromptTimedOut => {
                let actions = vec![Action::DeleteEphemeral];
                proof {
                    assert(actions_view(actions@) =~= step_model(stm, evm, cfgm).1);
                }
                (SessionState::Abandoned, actions)
            },
            Event::CapabilityFailed => {
                (SessionState::Failed { error: SessionError::CapabilityFailure }, Vec::new())
            },
            _ => {
                (SessionState::AwaitingRoles { wait_secs }, Vec::new())
            },
        },
        SessionState::Announced { session } => match ev {
            Event::WaitElapsed => {
                let window = if session.wait_secs >= APPROX_MATCH_LENGTH_SECS {
                    0
                } else {
                    APPROX_MATCH_LENGTH_SECS - session.wait_secs
                };
                let empty = Roster::new();
                let match_message = render(&session, Phase::MatchStarting, &empty);
                if window > 0 {
                    let actions = vec![
                        Action::EditAnnouncement { message: match_message },
                        Action::AwaitToggles { window_secs: window },
                    ];
                    proof {
                        assert(actions_view(actions@) =~= step_model(stm, evm, cfgm).1);
                    }
                    (SessionState::MatchStarting { session, roster: empty }, actions)
                } else {
                    let closed_message = render(&session, Phase::Closed, &empty);
                    let actions = vec![
                        Action::EditAnnouncement { message: match_message },
                        Action::EditAnnouncement { message: closed_message },
                    ];
                    proof {
                        assert(actions_view(actions@) =~= step_model(stm, evm, cfgm).1);
                    }
                    (SessionState::Closed, actions)
                }
            },
            Event::CapabilityFailed => {
                (SessionState::Failed { error: SessionError::CapabilityFailure }, Vec::new())
            },
            _ => {
                (SessionState::Announced { session }, Vec::new())
            },
        },
        SessionState::MatchStarting { session, roster } => match ev {
            Event::ToggleSignal { user_id } => {
                let mut roster = roster;
                roster.toggle(user_id);
                let message = render(&session, Phase::MatchStarting, &roster);
                let actions = vec![
                    Action::AcknowledgeToggle,
                    Action::EditAnnouncement { message },
                ];
                proof {
                    assert(actions_view(actions@) =~= step_model(stm, evm, cfgm).1);
                }
                (SessionState::MatchStarting { session, roster }, actions)
            },
            Event::WindowElapsed => {
                let message = render(&session, Phase::Closed, &roster);
                let actions = vec![Action::EditAnnouncement { message }];
                proof {
                    assert(actions_view(actions@) =~= step_model(stm, evm, cfgm).1);
                }
                (SessionState::Closed, actions)
            },
            Event::CapabilityFailed => {
                (SessionState::Failed { error: SessionError::CapabilityFailure }, Vec::new())
            },
            _ => {
                (SessionState::MatchStarting { session, roster }, Vec::new())
            },
        },
        SessionState::Closed => {
            (SessionState::Closed, Vec::new())
        },
        SessionState::Abandoned => {
            (SessionState::Abandoned, Vec::new())
        },
        SessionState::Failed { error } => {
            (SessionState::Failed { error }, Vec::new())
        },
    }
}

/// An action the public can observe: posting or editing the announcement.
pub open spec fn is_public(a: ActionModel) -> bool {
    a is PostAnnouncement || a is EditAnnouncement
}

/// A whole run of the workflow: the state after feeding the events in
/// order, and every action emitted along the way.
pub open spec fn run_model(st: StateModel, evs: Seq<EventModel>, cfg: ConfigModel) -> (
    StateModel,
    Seq<ActionModel>,
)
    decreases evs.len(),
{
    if evs.len() == 0 {
        (st, Seq::empty())
    } else {
        let first = step_model(st, evs[0], cfg);
        let rest = run_model(first.0, evs.drop_first(), cfg);
        (rest.0, first.1 + rest.1)
    }
}

/// The states from which a prompt timeout can still abandon the session.
pub open spec fn can_abandon(st: StateModel) -> bool {
    st is AwaitingDuration || st is AwaitingRoles || st is Abandoned
}

/// Terminal states ignore every event and emit nothing.
pub proof fn lemma_terminal_states_are_quiet(st: StateModel, ev: EventModel, cfg: ConfigModel)
    requires
        st is Closed || st is Abandoned || st is Failed,
    ensures
        step_model(st, ev, cfg).0 == st,
        step_model(st, ev, cfg).1 == Seq::<ActionModel>::empty(),
{
}

/// A prompt timeout abandons the session at once, and the only action it
/// asks for is deleting the dangling ephemeral prompt — nothing public.
pub proof fn lemma_prompt_timeout_abandons(st: StateModel, cfg: ConfigModel)
    requires
        st is AwaitingDuration || st is AwaitingRoles,
    ensures
        step_model(st, EventModel::PromptTimedOut, cfg).0 is Abandoned,
        step_model(st, EventModel::PromptTimedOut, cfg).1 == seq![ActionModel::DeleteEphemeral],
        forall|i: int|
            0 <= i < step_model(st, EventModel::PromptTimedOut, cfg).1.len() ==> !is_public(
                #[trigger] step_model(st, EventModel::PromptTimedOut, cfg).1[i],
            ),
{
}

/// Once the session is past its prompts, it can never become abandoned.
proof fn lemma_abandon_unreachable(st: StateModel, evs: Seq<EventModel>, cfg: ConfigModel)
    requires
        !can_abandon(st),
    ensures
        !can_abandon(run_model(st, evs, cfg).0),
    decreases evs.len(),
{
    if evs.len() > 0 {
        let first = step_model(st, evs[0], cfg);
        assert(!can_abandon(first.0));
        lemma_abandon_unreachable(first.0, evs.drop_first(), cfg);
    }
}

/// A run that ends abandoned — that is, one of the two prompts timed out —
/// never produced a public message: every action emitted along the way was
/// about the ephemeral prompts alone.
pub proof fn lemma_abandoned_run_is_silent(
    st: StateModel,
    evs: Seq<EventModel>,
    cfg: ConfigModel,
)
    requires
        can_abandon(st),
        run_model(st, evs, cfg).0 is Abandoned,
    ensures
        forall|i: int|
            0 <= i < run_model(st, evs, cfg).1.len() ==> !is_public(
                #[trigger] run_model(st, evs, cfg).1[i],
            ),
    decreases evs.len(),
{
    if evs.len() > 0 {
        let first = step_model(st, evs[0], cfg);
        let rest = run_model(first.0, evs.drop_first(), cfg);
        if can_abandon(first.0) {
            assert(forall|i: int| 0 <= i < first.1.len() ==> !is_public(#[trigger] first.1[i]));
            lemma_abandoned_run_is_silent(first.0, evs.drop_first(), cfg);
            assert forall|i: int|
                0 <= i < run_model(st, evs, cfg).1.len() implies !is_public(
                #[trigger] run_model(st, evs, cfg).1[i],
            ) by {
                if i < first.1.len() {
                    assert(run_model(st, evs, cfg).1[i] == first.1[i]);
                } else {
                    assert(run_model(st, evs, cfg).1[i] == rest.1[i - first.1.len()]);
                }
            }
        } else {
            lemma_abandon_unreachable(first.0, evs.drop_first(), cfg);
            assert(false);
        }
    }
}

/// When the collection window is already zero as the wait elapses, the
/// session closes at once: no toggle collection is requested, and — since
/// the closed state ignores every further event — no toggle is ever
/// processed and the announcement is never re-rendered in that phase.
pub proof fn lemma_zero_window_skips_collection(session: SessionModel, cfg: ConfigModel)
    requires
        window_secs_model(session.wait_secs) == 0,
    ensures
        step_model(StateModel::Announced { session }, EventModel::WaitElapsed, cfg).0 is Closed,
        forall|i: int|
            0 <= i < step_model(
                StateModel::Announced { session },
                EventModel::WaitElapsed,
                cfg,
            ).1.len() ==> !(#[trigger] step_model(
                StateModel::Announced { session },
                EventModel::WaitElapsed,
                cfg,
            ).1[i] is AwaitToggles),
        forall|ev: EventModel|
            step_model(StateModel::Closed, ev, cfg) == (
                StateModel::Closed,
                Seq::<ActionModel>::empty(),
            ),
{
}

/// Two toggle signals from the same user in immediate succession leave the
/// roster with exactly its prior membership, and the roster never holds a
/// duplicate at either step.
pub proof fn lemma_session_toggle_twice(
    session: SessionModel,
    roster: Seq<u64>,
    user_id: u64,
    cfg: ConfigModel,
)
    requires
        roster.no_duplicates(),
    ensures
        ({
            let st1 = step_model(
                StateModel::MatchStarting { session, roster },
                EventModel::ToggleSignal { user_id },
                cfg,
            ).0;
            let st2 = step_model(st1, EventModel::ToggleSignal { user_id }, cfg).0;
            match (st1, st2) {
                (
                    StateModel::MatchStarting { session: s1, roster: r1 },
                    StateModel::MatchStarting { session: s2, roster: r2 },
                ) => {
                    &&& s1 == session
                    &&& s2 == session
                    &&& r1.no_duplicates()
                    &&& r2.no_duplicates()
                    &&& forall|v: u64| r2.contains(v) == roster.contains(v)
                },
                _ => false,
            }
        }),
{
    crate::roster::lemma_toggle_twice(roster, user_id);
    let r1 = toggle_spec(roster, user_id);
    crate::roster::lemma_toggle_twice(r1, user_id);
}

} // verus!

//! The two ephemeral prompt steps: wait-duration selection and role
//! selection.
//!
//! A prompt step is a transient value object: the menu's options (label,
//! value, optional emoji), how many options may be selected, and how long
//! the recipient has to answer.

use vstd::prelude::*;

use crate::numfmt::dec_digits;
use crate::settings::{ReactionRole, RoleModel};

verus! {

/// How long the recipient has to answer a prompt, in seconds.
pub const PROMPT_TIMEOUT_SECS: u64 = 120;

/// One selectable option of a prompt menu.
pub struct PromptOption {
    pub label: String,
    pub value: String,
    pub emoji_id: Option<u64>,
    pub emoji_char: Option<String>,
}

/// Ghost model of a `PromptOption`.
pub ghost struct OptionModel {
    pub label: Seq<char>,
    pub value: Seq<char>,
    pub emoji_id: Option<u64>,
    pub emoji_char: Option<Seq<char>>,
}

impl View for PromptOption {
    type V = OptionModel;

    open spec fn view(&self) -> OptionModel {
        OptionModel {
            label: self.label@,
            value: self.value@,
            emoji_id: self.emoji_id,
            emoji_char: match self.emoji_char {
                Some(s) => Some(s@),
                None => None,
            },
        }
    }
}

/// One prompt step: options, selection bounds, timeout.
pub struct PromptStep {
    pub options: Vec<PromptOption>,
    pub min_select: usize,
    pub max_select: usize,
    pub timeout_secs: u64,
}

/// Ghost model of a `PromptStep`.
pub ghost struct PromptModel {
    pub options: Seq<OptionModel>,
    pub min_select: int,
    pub max_select: int,
    pub timeout_secs: int,
}

impl View for PromptStep {
    type V = PromptModel;

    open spec fn view(&self) -> PromptModel {
        PromptModel {
            options: self.options@.map_values(|o: PromptOption| o@),
            min_select: self.min_select as int,
            max_select: self.max_select as int,
            timeout_secs: self.timeout_secs as int,
        }
    }
}

/// An option with no emoji marker.
pub open spec fn plain_option(label: Seq<char>, value: Seq<char>) -> OptionModel {
    OptionModel { label, value, emoji_id: None, emoji_char: None }
}

/// The fixed wait-duration menu: five choices, each valued in seconds,
/// exactly one to be selected.
pub open spec fn duration_prompt_model() -> PromptModel {
    PromptModel {
        options: seq![
            plain_option("30 Seconds"@, "30"@),
            plain_option("1 Minute"@, "60"@),
            plain_option("5 Minutes"@, "300"@),
            plain_option("10 Minutes"@, "600"@),
            plain_option("15 Minutes"@, "900"@),
        ],
        min_select: 1,
        max_select: 1,
        timeout_secs: PROMPT_TIMEOUT_SECS as int,
    }
}

/// The option standing for one role: its title as the label, its role
/// identifier in decimal as the value, and its emoji marker.
pub open spec fn role_option(r: RoleModel) -> OptionModel {
    OptionModel {
        label: r.title,
        value: dec_digits(r.role_id as nat),
        emoji_id: r.emoji_id,
        emoji_char: r.emoji_char,
    }
}

/// The role-selection menu over the given directory entries: one option
/// per role, between one and all of them to be selected.
pub open spec fn roles_prompt_model(roles: Seq<RoleModel>) -> PromptModel {
    PromptModel {
        options: roles.map_values(|r: RoleModel| role_option(r)),
        min_select: 1,
        max_select: roles.len() as int,
        timeout_secs: PROMPT_TIMEOUT_SECS as int,
    }
}

fn push_plain_option(options: &mut Vec<PromptOption>, label: &str, value: &str)
    ensures
        final(options)@.map_values(|o: PromptOption| o@) =~= old(options)@.map_values(
            |o: PromptOption| o@,
        ).push(plain_option(label@, value@)),
{
    options.push(
        PromptOption {
            label: label.to_owned(),
            value: value.to_owned(),
            emoji_id: None,
            emoji_char: None,
        },
    );
}

/// Builds the wait-duration prompt.
pub fn duration_prompt() -> (p: PromptStep)
    ensures
        p@ == duration_prompt_model(),
{
    let mut options: Vec<PromptOption> = Vec::new();
    push_plain_option(&mut options, "30 Seconds", "30");
    push_plain_option(&mut options, "1 Minute", "60");
    push_plain_option(&mut options, "5 Minutes", "300");
    push_plain_option(&mut options, "10 Minutes", "600");
    push_plain_option(&mut options, "15 Minutes", "900");
    let p = PromptStep { options, min_select: 1, max_select: 1, timeout_secs: PROMPT_TIMEOUT_SECS };
    proof {
        assert(p@.options =~= duration_prompt_model().options);
    }
    p
}

/// Builds the role-selection prompt for the given directory entries.
pub fn roles_prompt(roles: &Vec<ReactionRole>) -> (p: PromptStep)
    ensures
        p@ == roles_prompt_model(roles@.map_values(|r: ReactionRole| r@)),
{
    let ghost rolesm = roles@.map_values(|r: ReactionRole| r@);
    let mut options: Vec<PromptOption> = Vec::new();
    let n = roles.len();
    let mut i: usize = 0;
    while i < n
        invariant
            0 <= i <= n == roles@.len(),
            rolesm == roles@.map_values(|r: ReactionRole| r@),
            options@.map_values(|o: PromptOption| o@) == rolesm.take(i as int).map_values(
                |r: RoleModel| role_option(r),
            ),
        decreases n - i,
    {
        let role = &roles[i];
        let value = crate::numfmt::u64_to_dec(role.role_id);
        let emoji_char = match &role.emoji_char {
            Some(e) => Some(e.clone()),
            None => None,
        };
        let opt = PromptOption {
            label: role.title.clone(),
            value,
            emoji_id: role.emoji_id,
            emoji_char,
        };
        proof {
            assert(rolesm[i as int] == roles@[i as int]@);
            assert(opt@.label == rolesm[i as int].title);
            assert(opt@.value == dec_digits(rolesm[i as int].role_id as nat));
            assert(opt@.emoji_id == rolesm[i as int].emoji_id);
            assert(opt@.emoji_char == rolesm[i as int].emoji_char);
            assert(opt@ == role_option(rolesm[i as int]));
        }
        let ghost prev = options@;
        options.push(opt);
        proof {
            prev.lemma_push_map_commute(|o: PromptOption| o@, opt);
            rolesm.lemma_map_take_succ(|r: RoleModel| role_option(r), i as int);
            assert(options@.map_values(|o: PromptOption| o@) =~= rolesm.take(
                i as int + 1,
            ).map_values(|r: RoleModel| role_option(r)));
        }
        i = i + 1;
    }
    let p = PromptStep {
        options,
        min_select: 1,
        max_select: n,
        timeout_secs: PROMPT_TIMEOUT_SECS,
    };
    proof {
        assert(rolesm.take(n as int) =~= rolesm);
        assert(p@.options =~= roles_prompt_model(rolesm).options);
    }
    p
}

} // verus!

//! The role directory: which roles a named group can offer for mention.
//!
//! A group names the reaction-role message its roles come from; the
//! directory is that message's configured roles, in configuration order,
//! with the group's excluded titles removed.

use vstd::prelude::*;

use crate::settings::{GameQueuesModel, ReactionRole, ReactionRolesModel, RoleModel, Settings};

verus! {

/// Why a group has no directory.
#[derive(Clone, Copy, PartialEq, Eq, Structural, Debug)]
pub enum DirectoryError {
    /// No configured game queue bears the requested group name.
    UnknownGroup,
    /// The group's backing reaction-role message has no registered
    /// entries.
    NoRegisteredEntries,
}

/// The first configured game queue bearing the given name.
pub open spec fn find_queue(queues: Seq<GameQueuesModel>, name: Seq<char>) -> Option<
    GameQueuesModel,
>
    decreases queues.len(),
{
    if queues.len() == 0 {
        None
    } else if queues[0].game_name == name {
        Some(queues[0])
    } else {
        find_queue(queues.drop_first(), name)
    }
}

/// Whether any reaction-role block is registered for the given message.
pub open spec fn has_block(blocks: Seq<ReactionRolesModel>, message_id: u64) -> bool {
    exists|i: int| 0 <= i < blocks.len() && (#[trigger] blocks[i]).message_id == message_id
}

/// The roles registered on the given message, in configuration order,
/// across every block that names it.
pub open spec fn group_roles(blocks: Seq<ReactionRolesModel>, message_id: u64) -> Seq<RoleModel>
    decreases blocks.len(),
{
    if blocks.len() == 0 {
        Seq::empty()
    } else {
        group_roles(blocks.drop_last(), message_id) + if blocks.last().message_id == message_id {
            blocks.last().roles
        } else {
            Seq::empty()
        }
    }
}

/// The roles left after removing those whose title the group excludes.
pub open spec fn filter_excluded(roles: Seq<RoleModel>, exclude: Seq<Seq<char>>) -> Seq<RoleModel>
    decreases roles.len(),
{
    if roles.len() == 0 {
        Seq::empty()
    } else {
        filter_excluded(roles.drop_last(), exclude) + if exclude.contains(roles.last().title) {
            Seq::empty()
        } else {
            seq![roles.last()]
        }
    }
}

proof fn lemma_find_queue_at(queues: Seq<GameQueuesModel>, name: Seq<char>, i: int)
    requires
        0 <= i < queues.len(),
        queues[i].game_name == name,
        forall|j: int| 0 <= j < i ==> (#[trigger] queues[j]).game_name != name,
    ensures
        find_queue(queues, name) == Some(queues[i]),
    decreases i,
{
    if i > 0 {
        lemma_find_queue_at(queues.drop_first(), name, i - 1);
    }
}

proof fn lemma_find_queue_none(queues: Seq<GameQueuesModel>, name: Seq<char>)
    requires
        forall|j: int| 0 <= j < queues.len() ==> (#[trigger] queues[j]).game_name != name,
    ensures
        find_queue(queues, name) is None,
    decreases queues.len(),
{
    if queues.len() > 0 {
        lemma_find_queue_none(queues.drop_first(), name);
    }
}

/// Whether `s` occurs among the views of `items`.
fn contains_string(items: &Vec<String>, s: &String) -> (r: bool)
    ensures
        r == items@.map_values(|x: String| x@).contains(s@),
{
    let n = items.len();
    let mut i: usize = 0;
    while i < n
        invariant
            0 <= i <= n == items@.len(),
            forall|j: int| 0 <= j < i ==> (#[trigger] items@[j])@ != s@,
        decreases n - i,
    {
        if items[i] == *s {
            proof {
                assert(items@.map_values(|x: String| x@)[i as int] == s@);
            }
            return true;
        }
        i = i + 1;
    }
    proof {
        let m = items@.map_values(|x: String| x@);
        if m.contains(s@) {
            let k = choose|k: int| 0 <= k < m.len() && m[k] == s@;
            assert(items@[k]@ == s@);
        }
    }
    false
}

impl Settings {
    /// The directory of the named group: the roles registered on the
    /// group's backing reaction-role message, in configuration order, with
    /// the group's excluded titles removed.  Fails when no game queue
    /// bears the name, or when no reaction-role block is registered for
    /// the group's message.
    pub fn roles_for_group(&self, group_name: &String) -> (r: Result<
        Vec<ReactionRole>,
        DirectoryError,
    >)
        ensures
            match find_queue(self@.game_queue, group_name@) {
                None => r == Err::<Vec<ReactionRole>, DirectoryError>(
                    DirectoryError::UnknownGroup,
                ),
                Some(q) => {
                    if has_block(self@.reaction_roles, q.roles_message_id) {
                        match r {
                            Ok(out) => out@.map_values(|x: ReactionRole| x@) == filter_excluded(
                                group_roles(self@.reaction_roles, q.roles_message_id),
                                q.exclude,
                            ),
                            Err(_) => false,
                        }
                    } else {
                        r == Err::<Vec<ReactionRole>, DirectoryError>(
                            DirectoryError::NoRegisteredEntries,
                        )
                    }
                },
            },
    {
        let n_queues = self.game_queue.len();
        let mut qi: usize = 0;
        let mut queue_at: Option<usize> = None;
        while qi < n_queues
            invariant
                0 <= qi <= n_queues == self.game_queue@.len(),
                match queue_at {
                    None => forall|j: int|
                        0 <= j < qi ==> (#[trigger] self@.game_queue[j]).game_name
                            != group_name@,
                    Some(f) => f < qi && self@.game_queue[f as int].game_name == group_name@ && (
                    forall|j: int|
                        0 <= j < f ==> (#[trigger] self@.game_queue[j]).game_name
                            != group_name@),
                },
            decreases n_queues - qi,
        {
            if queue_at.is_none() && self.game_queue[qi].game_name == *group_name {
                proof {
                    assert(self@.game_queue[qi as int] == self.game_queue@[qi as int]@);
                }
                queue_at = Some(qi);
            }
            qi = qi + 1;
        }
        let queue = match queue_at {
            None => {
                proof {
                    lemma_find_queue_none(self@.game_queue, group_name@);
                }
                return Err(DirectoryError::UnknownGroup);
            },
            Some(f) => {
                proof {
                    lemma_find_queue_at(self@.game_queue, group_name@, f as int);
                }
                &self.game_queue[f]
            },
        };
        let ghost qm = find_queue(self@.game_queue, group_name@)->0;
        proof {
            assert(qm == queue@);
        }
        let message_id = queue.roles_message_id;

        let mut out: Vec<ReactionRole> = Vec::new();
        let mut seen_block = false;
        let n_blocks = self.reaction_roles.len();
        let mut bi: usize = 0;
        while bi < n_blocks
            invariant
                0 <= bi <= n_blocks == self.reaction_roles@.len(),
                qm == find_queue(self@.game_queue, group_name@)->0,
                queue@ == qm,
                message_id == qm.roles_message_id,
                seen_block == has_block(
                    self@.reaction_roles.take(bi as int),
                    message_id,
                ),
                out@.map_values(|x: ReactionRole| x@) == filter_excluded(
                    group_roles(self@.reaction_roles.take(bi as int), message_id),
                    qm.exclude,
                ),
            decreases n_blocks - bi,
        {
            let block = &self.reaction_roles[bi];
            proof {
                assert(self@.reaction_roles.take(bi as int + 1).drop_last() =~= self@
                    .reaction_roles.take(bi as int));
                assert(self@.reaction_roles.take(bi as int + 1).last() == self.reaction_roles@[
                    bi as int
                ]@);
            }
            if block.message_id == message_id {
                seen_block = true;
                let n_roles = block.roles.len();
                let mut ri: usize = 0;
                while ri < n_roles
                    invariant
                        0 <= ri <= n_roles == block.roles@.len(),
                        0 <= bi < self.reaction_roles@.len(),
                        block == &self.reaction_roles@[bi as int],
                        block.message_id == message_id,
                        qm == find_queue(self@.game_queue, group_name@)->0,
                        queue@ == qm,
                        message_id == qm.roles_message_id,
                        out@.map_values(|x: ReactionRole| x@) == filter_excluded(
                            group_roles(self@.reaction_roles.take(bi as int), message_id)
                                + block@.roles.take(ri as int),
                            qm.exclude,
                        ),
                    decreases n_roles - ri,
                {
                    let role = &block.roles[ri];
                    proof {
                        lemma_filter_excluded_push(
                            group_roles(self@.reaction_roles.take(bi as int), message_id)
                                + block@.roles.take(ri as int),
                            block@.roles[ri as int],
                            qm.exclude,
                        );
                        assert((group_roles(self@.reaction_roles.take(bi as int), message_id)
                            + block@.roles.take(ri as int)).push(block@.roles[ri as int])
                            =~= group_roles(self@.reaction_roles.take(bi as int), message_id)
                            + block@.roles.take(ri as int + 1));
                        assert(block@.roles[ri as int] == block.roles@[ri as int]@);
                    }
                    if !contains_string(&queue.exclude, &role.title) {
                        let ghost prev = out@;
                        out.push(role.clone());
                        proof {
                            prev.lemma_push_map_commute(
                                |x: ReactionRole| x@,
                                out@[out@.len() - 1],
                            );
                            assert(out@.map_values(|x: ReactionRole| x@) =~= prev.map_values(
                                |x: ReactionRole| x@,
                            ).push(block@.roles[ri as int]));
                        }
                    }
                    ri = ri + 1;
                }
                proof {
                    assert(block@.roles.take(n_roles as int) =~= block@.roles);
                    assert(group_roles(self@.reaction_roles.take(bi as int + 1), message_id)
                        =~= group_roles(self@.reaction_roles.take(bi as int), message_id)
                        + block@.roles);
                }
            } else {
                proof {
                    assert(group_roles(self@.reaction_roles.take(bi as int + 1), message_id)
                        =~= group_roles(self@.reaction_roles.take(bi as int), message_id));
                }
            }
            bi = bi + 1;
        }
        proof {
            assert(self@.reaction_roles.take(n_blocks as int) =~= self@.reaction_roles);
        }
        if !seen_block {
            return Err(DirectoryError::NoRegisteredEntries);
        }
        Ok(out)
    }
}

/// Filtering one more role keeps the filtered prefix and appends the role
/// exactly when its title is not excluded.
proof fn lemma_filter_excluded_push(roles: Seq<RoleModel>, r: RoleModel, exclude: Seq<Seq<char>>)
    ensures
        filter_excluded(roles.push(r), exclude) == filter_excluded(roles, exclude) + if exclude
            .contains(r.title) {
            Seq::<RoleModel>::empty()
        } else {
            seq![r]
        },
{
    assert(roles.push(r).drop_last() =~= roles);
}

} // verus!

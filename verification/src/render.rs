//! Rendering of the public announcement message.
//!
//! The announcement's text is pinned down character by character for each
//! phase of the session.  Relative-time markers are always computed from
//! the session's fixed start timestamp plus offsets, never from "now", so
//! in-place edits stay consistent with the original announcement.

use vstd::prelude::*;

use crate::numfmt::{dec_digits, u64_to_dec};
use crate::roster::Roster;
use crate::session::{Session, SessionModel, APPROX_MATCH_LENGTH_SECS};
use crate::settings::RoleModel;

verus! {

/// The rendered states of the public announcement.
#[derive(Clone, Copy, PartialEq, Eq, Structural, Debug)]
pub enum Phase {
    Queueing,
    Started,
    MatchStarting,
    Closed,
}

/// Whether a phase attaches the join-next-game toggle to the message.
pub open spec fn phase_has_toggle(phase: Phase) -> bool {
    phase is MatchStarting
}

/// When queueing ends: session start plus the chosen wait.
pub open spec fn queue_end_time(s: SessionModel) -> nat {
    (s.start_secs + s.wait_secs) as nat
}

/// When the next match is expected: queue end plus the match-length
/// constant.
pub open spec fn next_match_time(s: SessionModel) -> nat {
    (s.start_secs + s.wait_secs + APPROX_MATCH_LENGTH_SECS) as nat
}

/// A relative-time marker for the given unix timestamp.
pub open spec fn marker_text(at: nat) -> Seq<char> {
    "<t:"@ + dec_digits(at) + ":R>"@
}

/// A mention of a role.
pub open spec fn role_mention_text(role_id: u64) -> Seq<char> {
    "<@&"@ + dec_digits(role_id as nat) + ">"@
}

/// A mention of a user.
pub open spec fn user_mention_text(user_id: u64) -> Seq<char> {
    "<@"@ + dec_digits(user_id as nat) + ">"@
}

/// The emoji prefix of a role's line: its literal emoji if one was
/// configured, nothing otherwise.
pub open spec fn emoji_prefix(r: RoleModel) -> Seq<char> {
    match r.emoji_char {
        Some(e) => e,
        None => Seq::empty(),
    }
}

/// One role's line: emoji prefix, mention, newline.
pub open spec fn role_line_text(r: RoleModel) -> Seq<char> {
    emoji_prefix(r) + role_mention_text(r.role_id) + "\n"@
}

/// One line per selected role, in selection order.
pub open spec fn role_lines(roles: Seq<RoleModel>) -> Seq<Seq<char>> {
    roles.map_values(|r: RoleModel| role_line_text(r))
}

/// The concatenation of a sequence of texts.
pub open spec fn concat_texts(ls: Seq<Seq<char>>) -> Seq<char>
    decreases ls.len(),
{
    if ls.len() == 0 {
        Seq::empty()
    } else {
        concat_texts(ls.drop_last()) + ls.last()
    }
}

/// The header naming the inviting user, and the lead-in to the role lines.
pub open spec fn header_text(user: Seq<char>) -> Seq<char> {
    "## "@ + user + " is Queueing\n### Looking to Play with\n"@
}

/// Header plus role lines: the part common to all phases.
pub open spec fn base_text(s: SessionModel) -> Seq<char> {
    header_text(s.inviting_user) + concat_texts(role_lines(s.roles))
}

/// A piece of a phase trailer: fixed wording, the group's name, or a
/// relative-time marker.
pub ghost enum TextPart {
    Lit(Seq<char>),
    Group(Seq<char>),
    Marker(nat),
}

/// The text a trailer piece stands for.
pub open spec fn part_text(p: TextPart) -> Seq<char> {
    match p {
        TextPart::Lit(s) => s,
        TextPart::Group(g) => g,
        TextPart::Marker(at) => marker_text(at),
    }
}

/// The texts of a sequence of trailer pieces.
pub open spec fn parts_text(ps: Seq<TextPart>) -> Seq<char> {
    concat_texts(ps.map_values(|p: TextPart| part_text(p)))
}

/// The relative-time markers among a sequence of trailer pieces, in order.
pub open spec fn markers_of(ps: Seq<TextPart>) -> Seq<nat>
    decreases ps.len(),
{
    if ps.len() == 0 {
        Seq::empty()
    } else {
        markers_of(ps.drop_last()) + match ps.last() {
            TextPart::Marker(at) => seq![at],
            _ => Seq::empty(),
        }
    }
}

/// The phase-specific trailer, as a sequence of pieces.
pub open spec fn trailer_parts(s: SessionModel, phase: Phase) -> Seq<TextPart> {
    match phase {
        Phase::Queueing => seq![
            TextPart::Lit("\n"@),
            TextPart::Group(s.group_name),
            TextPart::Lit(" Queueing "@),
            TextPart::Marker(queue_end_time(s)),
            TextPart::Lit("\n"@),
        ],
        Phase::Started | Phase::MatchStarting => seq![
            TextPart::Lit("\nStarted Queueing "@),
            TextPart::Marker(queue_end_time(s)),
            TextPart::Lit("\nApprox. Next Match "@),
            TextPart::Marker(next_match_time(s)),
            TextPart::Lit("\n"@),
        ],
        Phase::Closed => seq![
            TextPart::Lit("Started Queueing "@),
            TextPart::Marker(queue_end_time(s)),
            TextPart::Lit("\n"@),
        ],
    }
}

/// The phase-specific trailer's text.
pub open spec fn trailer_text(s: SessionModel, phase: Phase) -> Seq<char> {
    parts_text(trailer_parts(s, phase))
}

/// One roster entry: a blank line, then the user's mention.
pub open spec fn roster_entry_text(user_id: u64) -> Seq<char> {
    "\n"@ + user_mention_text(user_id)
}

/// The waiting-for-next-game block: nothing while the roster is empty,
/// else its caption and one entry per waiting user in insertion order.
pub open spec fn roster_block_text(users: Seq<u64>) -> Seq<char> {
    if users.len() == 0 {
        Seq::empty()
    } else {
        "### Waiting For Next Game\n"@ + concat_texts(
            users.map_values(|u: u64| roster_entry_text(u)),
        )
    }
}

/// The whole text of the announcement in the given phase.  Only the
/// match-starting phase shows the roster.
pub open spec fn message_text(s: SessionModel, phase: Phase, roster: Seq<u64>) -> Seq<char> {
    base_text(s) + trailer_text(s, phase) + if phase is MatchStarting {
        roster_block_text(roster)
    } else {
        Seq::empty()
    }
}

/// A rendered announcement: its text, and whether the join-next-game
/// toggle is attached.
pub struct RenderedMessage {
    pub text: String,
    pub has_toggle: bool,
}

/// Appending one text to a concatenation extends it at the end.
proof fn lemma_concat_push(ls: Seq<Seq<char>>, x: Seq<char>)
    ensures
        concat_texts(ls.push(x)) == concat_texts(ls) + x,
{
    assert(ls.push(x).drop_last() =~= ls);
    assert(concat_texts(ls.push(x)) == concat_texts(ls) + x);
}

fn append_marker(text: &mut String, at: u64)
    ensures
        final(text)@ == old(text)@ + marker_text(at as nat),
{
    text.append("<t:");
    let d = u64_to_dec(at);
    text.append(d.as_str());
    text.append(":R>");
    proof {
        assert(text@ =~= old(text)@ + marker_text(at as nat));
    }
}

fn append_role_mention(text: &mut String, role_id: u64)
    ensures
        final(text)@ == old(text)@ + role_mention_text(role_id),
{
    text.append("<@&");
    let d = u64_to_dec(role_id);
    text.append(d.as_str());
    text.append(">");
    proof {
        assert(text@ =~= old(text)@ + role_mention_text(role_id));
    }
}

fn append_user_mention(text: &mut String, user_id: u64)
    ensures
        final(text)@ == old(text)@ + user_mention_text(user_id),
{
    text.append("<@");
    let d = u64_to_dec(user_id);
    text.append(d.as_str());
    text.append(">");
    proof {
        assert(text@ =~= old(text)@ + user_mention_text(user_id));
    }
}

/// Renders the announcement for the given phase, with the roster shown
/// only in the match-starting phase.
pub fn render(session: &Session, phase: Phase, roster: &Roster) -> (r: RenderedMessage)
    requires
        session@.wf(),
    ensures
        r.text@ == message_text(session@, phase, roster@),
        r.has_toggle == phase_has_toggle(phase),
{
    let ghost m = session@;
    let mut text = String::new();
    text.append("## ");
    text.append(session.inviting_user.as_str());
    text.append(" is Queueing\n### Looking to Play with\n");
    proof {
        assert(text@ =~= header_text(m.inviting_user));
    }

    let n = session.roles.len();
    let mut i: usize = 0;
    while i < n
        invariant
            0 <= i <= n == session.roles@.len(),
            m == session@,
            text@ == header_text(m.inviting_user) + concat_texts(
                role_lines(m.roles.subrange(0, i as int)),
            ),
        decreases n - i,
    {
        let ghost before = text@;
        let role = &session.roles[i];
        if let Some(e) = &role.emoji_char {
            text.append(e.as_str());
        }
        append_role_mention(&mut text, role.role_id);
        text.append("\n");
        proof {
            assert(text@ =~= before + role_line_text(m.roles[i as int]));
            assert(role_lines(m.roles.subrange(0, i + 1)) =~= role_lines(
                m.roles.subrange(0, i as int),
            ).push(role_line_text(m.roles[i as int])));
            lemma_concat_push(
                role_lines(m.roles.subrange(0, i as int)),
                role_line_text(m.roles[i as int]),
            );
            assert(text@ =~= header_text(m.inviting_user) + concat_texts(
                role_lines(m.roles.subrange(0, i + 1)),
            ));
        }
        i = i + 1;
    }
    proof {
        assert(m.roles.subrange(0, n as int) =~= m.roles);
        assert(text@ == base_text(m));
    }

    let queue_end = session.start_secs + session.wait_secs;
    let ghost before_trailer = text@;
    match phase {
        Phase::Queueing => {
            text.append("\n");
            text.append(session.group_name.as_str());
            text.append(" Queueing ");
            append_marker(&mut text, queue_end);
            text.append("\n");
            proof {
                lemma_trailer_unfold(m, phase);
                assert(text@ =~= before_trailer + trailer_text(m, phase));
            }
        },
        Phase::Started | Phase::MatchStarting => {
            let next_match = queue_end + APPROX_MATCH_LENGTH_SECS;
            text.append("\nStarted Queueing ");
            append_marker(&mut text, queue_end);
            text.append("\nApprox. Next Match ");
            append_marker(&mut text, next_match);
            text.append("\n");
            proof {
                lemma_trailer_unfold(m, phase);
                assert(text@ =~= before_trailer + trailer_text(m, phase));
            }
        },
        Phase::Closed => {
            text.append("Started Queueing ");
            append_marker(&mut text, queue_end);
            text.append("\n");
            proof {
                lemma_trailer_unfold(m, phase);
                assert(text@ =~= before_trailer + trailer_text(m, phase));
            }
        },
    }

    let has_toggle = match phase {
        Phase::MatchStarting => true,
        _ => false,
    };

    if has_toggle {
        let ghost before_block = text@;
        let count = roster.len();
        if count > 0 {
            text.append("### Waiting For Next Game\n");
            let mut j: usize = 0;
            while j < count
                invariant
                    0 <= j <= count == roster@.len(),
                    text@ == before_block + "### Waiting For Next Game\n"@ + concat_texts(
                        roster@.subrange(0, j as int).map_values(|u: u64| roster_entry_text(u)),
                    ),
                decreases count - j,
            {
                let ghost before = text@;
                let user = roster.get(j);
                text.append("\n");
                append_user_mention(&mut text, user);
                proof {
                    assert(text@ =~= before + roster_entry_text(user));
                    assert(roster@.subrange(0, j + 1).map_values(|u: u64| roster_entry_text(u))
                        =~= roster@.subrange(0, j as int).map_values(
                        |u: u64| roster_entry_text(u),
                    ).push(roster_entry_text(user)));
                    lemma_concat_push(
                        roster@.subrange(0, j as int).map_values(|u: u64| roster_entry_text(u)),
                        roster_entry_text(user),
                    );
                    assert(text@ =~= before_block + "### Waiting For Next Game\n"@ + concat_texts(
                        roster@.subrange(0, j + 1).map_values(|u: u64| roster_entry_text(u)),
                    ));
                }
                j = j + 1;
            }
            proof {
                assert(roster@.subrange(0, count as int) =~= roster@);
                assert(text@ =~= before_block + roster_block_text(roster@));
            }
        } else {
            proof {
                assert(roster_block_text(roster@) =~= Seq::<char>::empty());
                assert(text@ =~= before_block + roster_block_text(roster@));
            }
        }
    }

    proof {
        assert(text@ =~= message_text(m, phase, roster@));
    }
    RenderedMessage { text, has_toggle }
}

/// Evaluates a phase trailer to plain concatenation, so proofs about the
/// exec renderer need not unfold `parts_text` themselves.
proof fn lemma_trailer_unfold(s: SessionModel, phase: Phase)
    ensures
        phase is Queueing ==> trailer_text(s, phase) == "\n"@ + s.group_name + " Queueing "@
            + marker_text(queue_end_time(s)) + "\n"@,
        phase is Started || phase is MatchStarting ==> trailer_text(s, phase)
            == "\nStarted Queueing "@ + marker_text(queue_end_time(s))
            + "\nApprox. Next Match "@ + marker_text(next_match_time(s)) + "\n"@,
        phase is Closed ==> trailer_text(s, phase) == "Started Queueing "@ + marker_text(
            queue_end_time(s),
        ) + "\n"@,
{
    let ps = trailer_parts(s, phase);
    let texts = ps.map_values(|p: TextPart| part_text(p));
    match phase {
        Phase::Queueing => {
            assert(texts =~= seq![
                "\n"@,
                s.group_name,
                " Queueing "@,
                marker_text(queue_end_time(s)),
                "\n"@,
            ]);
            lemma_concat_five(texts);
            assert(trailer_text(s, phase) =~= "\n"@ + s.group_name + " Queueing "@ + marker_text(
                queue_end_time(s),
            ) + "\n"@);
        },
        Phase::Started | Phase::MatchStarting => {
            assert(texts =~= seq![
                "\nStarted Queueing "@,
                marker_text(queue_end_time(s)),
                "\nApprox. Next Match "@,
                marker_text(next_match_time(s)),
                "\n"@,
            ]);
            lemma_concat_five(texts);
            assert(trailer_text(s, phase) =~= "\nStarted Queueing "@ + marker_text(
                queue_end_time(s),
            ) + "\nApprox. Next Match "@ + marker_text(next_match_time(s)) + "\n"@);
        },
        Phase::Closed => {
            assert(texts =~= seq![
                "Started Queueing "@,
                marker_text(queue_end_time(s)),
                "\n"@,
            ]);
            lemma_concat_three(texts);
            assert(trailer_text(s, phase) =~= "Started Queueing "@ + marker_text(
                queue_end_time(s),
            ) + "\n"@);
        },
    }
}

/// Evaluates the concatenation of three texts.
proof fn lemma_concat_three(texts: Seq<Seq<char>>)
    requires
        texts.len() == 3,
    ensures
        concat_texts(texts) == texts[0] + texts[1] + texts[2],
{
    let s1 = seq![texts[0]];
    let s2 = seq![texts[0], texts[1]];
    assert(s1.drop_last() =~= Seq::<Seq<char>>::empty());
    assert(concat_texts(s1) == concat_texts(Seq::<Seq<char>>::empty()) + texts[0]);
    assert(concat_texts(s1) =~= texts[0]);
    assert(s2.drop_last() =~= s1);
    assert(concat_texts(s2) == concat_texts(s1) + texts[1]);
    assert(texts.drop_last() =~= s2);
    assert(concat_texts(texts) == concat_texts(s2) + texts[2]);
    assert(concat_texts(texts) =~= texts[0] + texts[1] + texts[2]);
}

/// Evaluates the concatenation of five texts.
proof fn lemma_concat_five(texts: Seq<Seq<char>>)
    requires
        texts.len() == 5,
    ensures
        concat_texts(texts) == texts[0] + texts[1] + texts[2] + texts[3] + texts[4],
{
    let s3 = seq![texts[0], texts[1], texts[2]];
    let s4 = seq![texts[0], texts[1], texts[2], texts[3]];
    lemma_concat_three(s3);
    assert(s4.drop_last() =~= s3);
    assert(concat_texts(s4) == concat_texts(s3) + texts[3]);
    assert(texts.drop_last() =~= s4);
    assert(concat_texts(texts) == concat_texts(s4) + texts[4]);
    assert(concat_texts(texts) =~= texts[0] + texts[1] + texts[2] + texts[3] + texts[4]);
}

/// For every session and roster, the Queueing-phase text is the header,
/// one line per selected role, and a trailer carrying exactly one
/// relative-time marker, at session start plus wait; each role's line is
/// prefixed by its emoji exactly when one was configured.
pub proof fn lemma_queueing_render(s: SessionModel, roster: Seq<u64>)
    ensures
        message_text(s, Phase::Queueing, roster) == base_text(s) + trailer_text(
            s,
            Phase::Queueing,
        ),
        markers_of(trailer_parts(s, Phase::Queueing)) == seq![queue_end_time(s)],
        role_lines(s.roles).len() == s.roles.len(),
        forall|i: int|
            0 <= i < s.roles.len() ==> role_lines(s.roles)[i] == emoji_prefix(s.roles[i])
                + role_mention_text(s.roles[i].role_id) + "\n"@,
        forall|i: int|
            0 <= i < s.roles.len() && s.roles[i].emoji_char is None ==> role_lines(s.roles)[i]
                == role_mention_text(s.roles[i].role_id) + "\n"@,
        forall|i: int|
            0 <= i < s.roles.len() && s.roles[i].emoji_char is Some ==> role_lines(s.roles)[i]
                == s.roles[i].emoji_char->0 + role_mention_text(s.roles[i].role_id) + "\n"@,
{
    assert(message_text(s, Phase::Queueing, roster) =~= base_text(s) + trailer_text(
        s,
        Phase::Queueing,
    ));
    lemma_markers_single(trailer_parts(s, Phase::Queueing), 3, queue_end_time(s));
    assert forall|i: int| 0 <= i < s.roles.len() && s.roles[i].emoji_char is None implies
        role_lines(s.roles)[i] == role_mention_text(s.roles[i].role_id) + "\n"@ by {
        assert(emoji_prefix(s.roles[i]) + role_mention_text(s.roles[i].role_id) =~= role_mention_text(
            s.roles[i].role_id,
        ));
        assert(role_line_text(s.roles[i]) =~= role_mention_text(s.roles[i].role_id) + "\n"@);
    }
}

/// A trailer whose only `Marker` piece sits at `k` carries exactly that
/// one marker.
proof fn lemma_markers_single(ps: Seq<TextPart>, k: int, at: nat)
    requires
        0 <= k < ps.len(),
        ps[k] == TextPart::Marker(at),
        forall|j: int| 0 <= j < ps.len() && j != k ==> !(#[trigger] ps[j] is Marker),
    ensures
        markers_of(ps) == seq![at],
    decreases ps.len(),
{
    if k == ps.len() - 1 {
        lemma_markers_none(ps.drop_last());
        assert(markers_of(ps) =~= seq![at]);
    } else {
        lemma_markers_single(ps.drop_last(), k, at);
        assert(markers_of(ps) =~= seq![at]);
    }
}

/// A trailer with no `Marker` piece carries no marker.
proof fn lemma_markers_none(ps: Seq<TextPart>)
    requires
        forall|j: int| 0 <= j < ps.len() ==> !(#[trigger] ps[j] is Marker),
    ensures
        markers_of(ps) == Seq::<nat>::empty(),
    decreases ps.len(),
{
    if ps.len() > 0 {
        lemma_markers_none(ps.drop_last());
        assert(markers_of(ps) =~= Seq::<nat>::empty());
    }
}

/// For every session, the Closed-phase text is independent of the roster:
/// it is the header, the role lines, and the started-queueing marker
/// alone — no roster block, and no toggle affordance in that phase.
pub proof fn lemma_closed_render(s: SessionModel, r1: Seq<u64>, r2: Seq<u64>)
    ensures
        message_text(s, Phase::Closed, r1) == message_text(s, Phase::Closed, r2),
        message_text(s, Phase::Closed, r1) == base_text(s) + trailer_text(s, Phase::Closed),
        markers_of(trailer_parts(s, Phase::Closed)) == seq![queue_end_time(s)],
        !phase_has_toggle(Phase::Closed),
{
    assert(message_text(s, Phase::Closed, r1) =~= base_text(s) + trailer_text(s, Phase::Closed));
    assert(message_text(s, Phase::Closed, r2) =~= base_text(s) + trailer_text(s, Phase::Closed));
    lemma_markers_single(trailer_parts(s, Phase::Closed), 1, queue_end_time(s));
}

} // verus!

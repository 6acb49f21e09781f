//! Rendering: the texts the core hands to the transport.
//!
//! Mentions, the join-control label with its live counter, the record
//! summary shown in the list, and the numbered participant lines.

use crate::ids::{uuid_text, uuid_to_string};
use crate::models::{Giveaway, GiveawayView, User, UserView};
use crate::text::{dec_rep, u64_to_string};
use vstd::prelude::*;
use vstd::string::StringExecFns;

verus! {

/// The name an identity is shown under: the username when there is
/// one, the first name otherwise.
pub open spec fn display_name(u: UserView) -> Seq<char> {
    match u.username {
        Some(name) => name,
        None => u.first_name,
    }
}

/// A rendered mention of an identity: `@username`, or a link on the
/// numeric id around the first name.
pub open spec fn spec_mention(u: UserView) -> Seq<char> {
    match u.username {
        Some(name) => "@"@ + name,
        None => "<a href=\"tg://user?id="@ + dec_rep(u.id as nat) + "\">"@ + u.first_name
            + "</a>"@,
    }
}

/// Renders a mention of `user`.
pub fn format_user_mention(user: &User) -> (r: String)
    ensures
        r@ == spec_mention(user@),
{
    match &user.username {
        Some(name) => {
            let mut s = String::from_str("@");
            s.append(name.as_str());
            s
        },
        None => {
            let mut s = String::from_str("<a href=\"tg://user?id=");
            let id_text = u64_to_string(user.id);
            s.append(id_text.as_str());
            s.append("\">");
            s.append(user.first_name.as_str());
            s.append("</a>");
            proof {
                reveal_strlit("\">");
                reveal_strlit("</a>");
                assert(s@ =~= spec_mention(user@));
            }
            s
        },
    }
}

/// The label of a join control showing the current participant count.
pub open spec fn spec_join_label(count: nat) -> Seq<char> {
    "Take part ("@ + dec_rep(count) + ")"@
}

/// Renders the join-control label for `count` participants.
pub fn join_button_label(count: usize) -> (r: String)
    ensures
        r@ == spec_join_label(count as nat),
{
    let mut s = String::from_str("Take part (");
    let count_text = u64_to_string(count as u64);
    s.append(count_text.as_str());
    s.append(")");
    proof {
        reveal_strlit(")");
        assert(s@ =~= spec_join_label(count as nat));
    }
    s
}

/// The record summary shown in the list: id, owner mention, caption,
/// participant count, and the group when the record is published.
pub open spec fn spec_giveaway_content(id: u128, g: GiveawayView) -> Seq<char> {
    let base = "ID: "@ + uuid_text(id) + "\nOwner: "@ + spec_mention(g.owner) + "\nText: "@
        + g.text + "\nParticipants: "@ + dec_rep(g.participants.len());
    if g.group_id.len() == 0 {
        base
    } else {
        base + "\nGroup: "@ + g.group_id
    }
}

/// Renders the summary of the record `g` under the id `id`.
pub fn get_giveaway_content(id: u128, g: &Giveaway) -> (r: String)
    ensures
        r@ == spec_giveaway_content(id, g@),
{
    let mut s = String::from_str("ID: ");
    let id_text = uuid_to_string(id);
    s.append(id_text.as_str());
    s.append("\nOwner: ");
    let mention = format_user_mention(&g.owner);
    s.append(mention.as_str());
    s.append("\nText: ");
    s.append(g.text.as_str());
    s.append("\nParticipants: ");
    let count_text = u64_to_string(g.participants.len() as u64);
    s.append(count_text.as_str());
    if !g.group_id.as_str().is_empty() {
        s.append("\nGroup: ");
        s.append(g.group_id.as_str());
        proof {
            reveal_strlit("\nOwner: ");
            reveal_strlit("\nText: ");
            reveal_strlit("\nParticipants: ");
            reveal_strlit("\nGroup: ");
            assert(s@ =~= spec_giveaway_content(id, g@));
        }
    } else {
        proof {
            reveal_strlit("\nOwner: ");
            reveal_strlit("\nText: ");
            reveal_strlit("\nParticipants: ");
            assert(s@ =~= spec_giveaway_content(id, g@));
        }
    }
    s
}

/// One numbered line of the participant listing.
pub open spec fn spec_participant_line(n: nat, u: UserView) -> Seq<char> {
    dec_rep(n) + ". "@ + display_name(u)
}

/// Renders the numbered participant lines of the record `g`, in
/// insertion order, numbered from one.
pub fn participant_lines(g: &Giveaway) -> (r: Vec<String>)
    ensures
        r@.len() == g@.participants.len(),
        forall|i: int|
            0 <= i < r@.len() ==> (#[trigger] r@[i])@ == spec_participant_line(
                (i + 1) as nat,
                g@.participants[i],
            ),
{
    let n = g.participants.len();
    let mut r: Vec<String> = Vec::new();
    let mut i: usize = 0;
    while i < n
        invariant
            0 <= i <= n,
            n == g.participants@.len(),
            n == g@.participants.len(),
            r@.len() == i,
            forall|k: int|
                0 <= k < i ==> (#[trigger] r@[k])@ == spec_participant_line(
                    (k + 1) as nat,
                    g@.participants[k],
                ),
        decreases n - i,
    {
        let mut line = u64_to_string((i as u64) + 1);
        line.append(". ");
        let participant = &g.participants[i];
        match &participant.username {
            Some(name) => {
                line.append(name.as_str());
            },
            None => {
                line.append(participant.first_name.as_str());
            },
        }
        proof {
            reveal_strlit(". ");
            assert(line@ =~= spec_participant_line((i + 1) as nat, g@.participants[i as int]));
        }
        r.push(line);
        i += 1;
    }
    r
}

} // verus!

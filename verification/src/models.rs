//! The giveaway record and the identities it holds.

use vstd::prelude::*;
use vstd::string::StrSliceExecFns;

verus! {

/// Mathematical model of a participant or organizer identity.
pub struct UserView {
    pub id: u64,
    pub username: Option<Seq<char>>,
    pub first_name: Seq<char>,
}

/// A chat identity: the numeric id that equality goes by, plus the
/// display fields used when the identity is rendered.
pub struct User {
    pub id: u64,
    pub username: Option<String>,
    pub first_name: String,
}

impl View for User {
    type V = UserView;

    open spec fn view(&self) -> UserView {
        UserView {
            id: self.id,
            username: match self.username {
                Some(ref u) => Some(u@),
                None => None,
            },
            first_name: self.first_name@,
        }
    }
}

impl User {
    /// A deep copy: string contents are preserved exactly.
    pub fn duplicate(&self) -> (r: User)
        ensures
            r@ == self@,
    {
        User {
            id: self.id,
            username: match &self.username {
                Some(u) => Some(u.clone()),
                None => None,
            },
            first_name: self.first_name.clone(),
        }
    }
}

/// Reference to a published announcement message, kept so its join
/// counter can be edited later.
#[derive(Clone, Copy, PartialEq, Eq, Structural, Debug)]
pub struct MessageRef {
    pub message_id: i64,
}

/// Mathematical model of a giveaway record.
pub struct GiveawayView {
    pub text: Seq<char>,
    pub group_id: Seq<char>,
    pub message: Option<MessageRef>,
    pub photo: Seq<char>,
    pub owner: UserView,
    pub participants: Seq<UserView>,
}

/// No identity occurs twice in a participant sequence.
pub open spec fn distinct_ids(s: Seq<UserView>) -> bool {
    forall|i: int, j: int| 0 <= i < j < s.len() ==> s[i].id != s[j].id
}

/// Some participant in `s` carries the identity `uid`.
pub open spec fn has_id(s: Seq<UserView>, uid: u64) -> bool {
    exists|i: int| 0 <= i < s.len() && s[i].id == uid
}

/// The identities of a participant list, in order.
pub open spec fn views_of(s: Seq<User>) -> Seq<UserView> {
    Seq::new(s.len(), |i: int| s[i]@)
}

impl GiveawayView {
    /// Record invariant: participants are distinct by identity, and a
    /// record with a publish target also holds its announcement
    /// reference (both are set by one publish step, or neither is).
    pub open spec fn well_formed(self) -> bool {
        &&& distinct_ids(self.participants)
        &&& self.group_id.len() > 0 ==> self.message is Some
    }

    /// The record as freshly created: no target, no announcement, no
    /// participants.
    pub open spec fn fresh(text: Seq<char>, photo: Seq<char>, owner: UserView) -> GiveawayView {
        GiveawayView {
            text: text,
            group_id: Seq::empty(),
            message: None,
            photo: photo,
            owner: owner,
            participants: Seq::empty(),
        }
    }

    /// The record after a publish step to `target` produced the
    /// announcement `m`.
    pub open spec fn published(self, target: Seq<char>, m: MessageRef) -> GiveawayView {
        GiveawayView { group_id: target, message: Some(m), ..self }
    }

    /// The record after `user` joined.
    pub open spec fn joined(self, user: UserView) -> GiveawayView {
        GiveawayView { participants: self.participants.push(user), ..self }
    }
}

/// A giveaway record: caption text, publish target (empty until
/// published), announcement reference, photo reference, owner, and the
/// insertion-ordered participant list.
pub struct Giveaway {
    pub text: String,
    pub group_id: String,
    pub message: Option<MessageRef>,
    pub photo: String,
    pub owner: User,
    pub participants: Vec<User>,
}

impl View for Giveaway {
    type V = GiveawayView;

    open spec fn view(&self) -> GiveawayView {
        GiveawayView {
            text: self.text@,
            group_id: self.group_id@,
            message: self.message,
            photo: self.photo@,
            owner: self.owner@,
            participants: views_of(self.participants@),
        }
    }
}

impl Giveaway {
    /// Builds a fresh record: empty publish target, no announcement, no
    /// participants.
    pub fn new(text: String, photo: String, owner: User) -> (r: Giveaway)
        ensures
            r@ == GiveawayView::fresh(text@, photo@, owner@),
            r@.well_formed(),
    {
        let r = Giveaway {
            text,
            group_id: String::new(),
            photo,
            message: None,
            owner,
            participants: Vec::new(),
        };
        proof {
            assert(r@.participants =~= Seq::<UserView>::empty());
            assert(r@ =~= GiveawayView::fresh(r.text@, r.photo@, r.owner@));
        }
        r
    }

    /// Sets the publish target.
    pub fn add_group_id(&mut self, group_id: String)
        ensures
            final(self)@ == (GiveawayView { group_id: group_id@, ..old(self)@ }),
    {
        self.group_id = group_id;
        proof {
            assert(self@ =~= (GiveawayView { group_id: self.group_id@, ..old(self)@ }));
        }
    }

    /// Appends a participant, without a membership check: callers keep
    /// the distinctness invariant by checking `check_user` first.
    pub fn add_participant(&mut self, user: User)
        ensures
            final(self)@ == old(self)@.joined(user@),
    {
        self.participants.push(user);
        proof {
            assert(self@.participants =~= old(self)@.participants.push(user@));
            assert(self@ =~= old(self)@.joined(user@));
        }
    }

    /// The participant list, in insertion order.
    pub fn get_participants(&self) -> (r: &Vec<User>)
        ensures
            r == &self.participants,
    {
        &self.participants
    }

    /// A copy of the owning identity.
    pub fn get_owner(&self) -> (r: User)
        ensures
            r@ == self@.owner,
    {
        self.owner.duplicate()
    }

    /// The caption text.
    pub fn get_text(&self) -> (r: &String)
        ensures
            r == &self.text,
    {
        &self.text
    }

    /// The reference to the uploaded photo content.
    pub fn get_photo(&self) -> (r: &String)
        ensures
            r == &self.photo,
    {
        &self.photo
    }

    /// The announcement reference, absent until published.
    pub fn get_message(&self) -> (r: &Option<MessageRef>)
        ensures
            r == &self.message,
    {
        &self.message
    }

    /// Records the announcement reference.
    pub fn set_message(&mut self, message: MessageRef)
        ensures
            final(self)@ == (GiveawayView { message: Some(message), ..old(self)@ }),
    {
        self.message = Some(message);
        proof {
            assert(self@ =~= (GiveawayView { message: Some(message), ..old(self)@ }));
        }
    }

    /// Membership test by identity equality.
    pub fn check_user(&self, user: &User) -> (r: bool)
        ensures
            r == has_id(self@.participants, user@.id),
    {
        let n = self.participants.len();
        let mut i: usize = 0;
        while i < n
            invariant
                0 <= i <= n,
                n == self.participants@.len(),
                forall|k: int| 0 <= k < i ==> self@.participants[k].id != user@.id,
            decreases n - i,
        {
            if self.participants[i].id == user.id {
                proof {
                    assert(self@.participants[i as int].id == user@.id);
                }
                return true;
            }
            i += 1;
        }
        false
    }

    /// Executable check of the record invariant, for records that
    /// cross in from outside the verified core (a remote copy may have
    /// been written by an embedding whose join raced).
    pub fn is_well_formed(&self) -> (b: bool)
        ensures
            b == self@.well_formed(),
    {
        if !self.group_id.as_str().is_empty() && self.message.is_none() {
            return false;
        }
        let n = self.participants.len();
        let mut i: usize = 0;
        while i < n
            invariant
                0 <= i <= n,
                n == self.participants@.len(),
                forall|k: int, l: int|
                    0 <= k < i && k < l < n ==> self@.participants[k].id != self@.participants[l].id,
            decreases n - i,
        {
            let mut j: usize = i + 1;
            while j < n
                invariant
                    i < j <= n,
                    i < n,
                    n == self.participants@.len(),
                    forall|l: int| i < l < j ==> self@.participants[i as int].id
                        != self@.participants[l].id,
                decreases n - j,
            {
                if self.participants[i].id == self.participants[j].id {
                    proof {
                        assert(self@.participants[i as int].id == self@.participants[j as int].id);
                    }
                    return false;
                }
                j += 1;
            }
            i += 1;
        }
        true
    }

    /// A copy of the participant list.
    pub fn clone_participants(&self) -> (r: Vec<User>)
        ensures
            views_of(r@) == self@.participants,
    {
        let n = self.participants.len();
        let mut r: Vec<User> = Vec::new();
        let mut i: usize = 0;
        while i < n
            invariant
                0 <= i <= n,
                n == self.participants@.len(),
                r@.len() == i,
                forall|k: int| 0 <= k < i ==> (#[trigger] r@[k])@ == self.participants@[k]@,
            decreases n - i,
        {
            r.push(self.participants[i].duplicate());
            i += 1;
        }
        proof {
            assert(views_of(r@) =~= self@.participants);
        }
        r
    }

    /// A deep copy of the whole record.
    pub fn duplicate(&self) -> (r: Giveaway)
        ensures
            r@ == self@,
    {
        let n = self.participants.len();
        let mut participants: Vec<User> = Vec::new();
        let mut i: usize = 0;
        while i < n
            invariant
                0 <= i <= n,
                n == self.participants@.len(),
                participants@.len() == i,
                forall|k: int| 0 <= k < i ==> (#[trigger] participants@[k])@
                    == self.participants@[k]@,
            decreases n - i,
        {
            participants.push(self.participants[i].duplicate());
            i += 1;
        }
        let r = Giveaway {
            text: self.text.clone(),
            group_id: self.group_id.clone(),
            message: self.message,
            photo: self.photo.clone(),
            owner: self.owner.duplicate(),
            participants,
        };
        proof {
            assert(r@.participants =~= self@.participants);
            assert(r@ =~= self@);
        }
        r
    }
}

} // verus!

//! The per-chat conversation state machine.
//!
//! Exactly one state is active per chat at any time; `State::Start` is
//! the initial, idle state, and transitions are the only way to change
//! it. `next_state` is the whole transition table: the routing layer
//! classifies an inbound event as a [`Trigger`] and moves the chat's
//! state by one step.

use vstd::prelude::*;
use vstd::string::StringExecFns;

verus! {

/// Mathematical model of an entry command.
pub enum CommandView {
    Help,
    Start(Seq<char>),
    Cancel,
}

/// The entry commands a chat can send.
#[derive(Debug)]
pub enum Command {
    /// Show the available commands.
    Help,
    /// Start the conversation; a non-empty payload is a deep link that
    /// delegates to the participation gate.
    Start(String),
    /// Leave the conversation.
    Cancel,
}

impl View for Command {
    type V = CommandView;

    open spec fn view(&self) -> CommandView {
        match self {
            Command::Help => CommandView::Help,
            Command::Start(p) => CommandView::Start(p@),
            Command::Cancel => CommandView::Cancel,
        }
    }
}

/// The entry command a message text names: `/help`, `/cancel`, or
/// `/start` with an optional payload after one space; any other text
/// is no command.
pub open spec fn spec_parse_command(s: Seq<char>) -> Option<CommandView> {
    if s == "/help"@ {
        Some(CommandView::Help)
    } else if s == "/cancel"@ {
        Some(CommandView::Cancel)
    } else if s == "/start"@ {
        Some(CommandView::Start(Seq::empty()))
    } else if s.len() > 7 && s.take(7) == "/start "@ {
        Some(CommandView::Start(s.skip(7)))
    } else {
        None
    }
}

fn str_eq(a: &str, b: &str) -> (r: bool)
    ensures
        r == (a@ == b@),
{
    let a_owned = a.to_owned();
    let b_owned = b.to_owned();
    a_owned == b_owned
}

/// Parses an entry command from a message text.
pub fn parse_command(s: &str) -> (r: Option<Command>)
    ensures
        r is Some <==> spec_parse_command(s@) is Some,
        r matches Some(c) ==> Some(c@) == spec_parse_command(s@),
{
    if str_eq(s, "/help") {
        return Some(Command::Help);
    }
    if str_eq(s, "/cancel") {
        return Some(Command::Cancel);
    }
    if str_eq(s, "/start") {
        proof {
            reveal_strlit("/start");
            reveal_strlit("/help");
            reveal_strlit("/cancel");
        }
        return Some(Command::Start(String::new()));
    }
    let n = s.unicode_len();
    if n > 7 {
        let prefix = s.substring_char(0, 7);
        if str_eq(prefix, "/start ") {
            let payload = s.substring_char(7, n);
            proof {
                reveal_strlit("/start ");
                reveal_strlit("/start");
                reveal_strlit("/help");
                reveal_strlit("/cancel");
                assert(s@.take(7) =~= prefix@);
                assert(s@.skip(7) =~= payload@);
            }
            return Some(Command::Start(payload.to_owned()));
        }
    }
    proof {
        reveal_strlit("/start ");
        reveal_strlit("/start");
        reveal_strlit("/help");
        reveal_strlit("/cancel");
    }
    None
}

/// The conversation states. `Start` is initial and idle; none is
/// terminal: the conversation is long-lived per chat.
#[derive(Clone, Copy, PartialEq, Eq, Structural, Debug)]
pub enum State {
    Start,
    CreateGiveaway,
    CancelGiveaway,
    StartedWindow,
    AddGroupId,
    EndGiveaway,
    RerollOrEnd,
    List,
    ShowParticipants,
}

impl Default for State {
    /// A chat with no stored state is idle.
    fn default() -> (r: Self)
        ensures
            r == State::Start,
    {
        State::Start
    }
}

/// The choices of the main menu.
#[derive(Clone, Copy, PartialEq, Eq, Structural, Debug)]
pub enum MenuCommands {
    CreateGiveaway,
    CancelGiveaway,
    GiveawayList,
    AddGroupId,
    EndGiveaway,
    DoNothing,
}

/// The menu choice a message text selects: unrecognized text selects
/// nothing.
pub open spec fn spec_menu_of(s: Seq<char>) -> MenuCommands {
    if s == "Create giveaway"@ {
        MenuCommands::CreateGiveaway
    } else if s == "Cancel giveaway"@ {
        MenuCommands::CancelGiveaway
    } else if s == "Giveaway list"@ {
        MenuCommands::GiveawayList
    } else if s == "Add giveaway to group"@ {
        MenuCommands::AddGroupId
    } else if s == "End giveaway"@ {
        MenuCommands::EndGiveaway
    } else {
        MenuCommands::DoNothing
    }
}

impl From<String> for MenuCommands {
    /// Matches a message text against the menu labels.
    fn from(s: String) -> (r: Self) {
        if s == String::from_str("Create giveaway") {
            MenuCommands::CreateGiveaway
        } else if s == String::from_str("Cancel giveaway") {
            MenuCommands::CancelGiveaway
        } else if s == String::from_str("Giveaway list") {
            MenuCommands::GiveawayList
        } else if s == String::from_str("Add giveaway to group") {
            MenuCommands::AddGroupId
        } else if s == String::from_str("End giveaway") {
            MenuCommands::EndGiveaway
        } else {
            MenuCommands::DoNothing
        }
    }
}

impl vstd::std_specs::convert::FromSpecImpl<String> for MenuCommands {
    open spec fn obeys_from_spec() -> bool {
        true
    }

    open spec fn from_spec(s: String) -> Self {
        spec_menu_of(s@)
    }
}

impl MenuCommands {
    /// The label shown on the menu button for this choice.
    pub fn label(&self) -> (r: String)
        ensures
            r@ == spec_menu_label(*self),
    {
        match self {
            MenuCommands::CreateGiveaway => String::from_str("Create giveaway"),
            MenuCommands::CancelGiveaway => String::from_str("Cancel giveaway"),
            MenuCommands::GiveawayList => String::from_str("Giveaway list"),
            MenuCommands::AddGroupId => String::from_str("Add giveaway to group"),
            MenuCommands::EndGiveaway => String::from_str("End giveaway"),
            MenuCommands::DoNothing => String::from_str("Do nothing"),
        }
    }
}

/// The menu label of each choice.
pub open spec fn spec_menu_label(m: MenuCommands) -> Seq<char> {
    match m {
        MenuCommands::CreateGiveaway => "Create giveaway"@,
        MenuCommands::CancelGiveaway => "Cancel giveaway"@,
        MenuCommands::GiveawayList => "Giveaway list"@,
        MenuCommands::AddGroupId => "Add giveaway to group"@,
        MenuCommands::EndGiveaway => "End giveaway"@,
        MenuCommands::DoNothing => "Do nothing"@,
    }
}

/// The choices offered after a draw: draw the same giveaway again, or
/// finish it.
#[derive(Clone, Copy, PartialEq, Eq, Structural, Debug)]
pub enum RerollCommands {
    Reroll,
    End,
}

/// The choice a message text selects after a draw: one of the two
/// labels, or nothing, so that any other text stays unrecognized and
/// a typo neither redraws nor finalizes.
pub open spec fn spec_reroll_of(s: Seq<char>) -> Option<RerollCommands> {
    if s == "Reroll"@ {
        Some(RerollCommands::Reroll)
    } else if s == "End"@ {
        Some(RerollCommands::End)
    } else {
        None
    }
}

impl RerollCommands {
    /// Matches a message text against the reroll labels.
    pub fn parse(s: &str) -> (r: Option<Self>)
        ensures
            r == spec_reroll_of(s@),
    {
        if str_eq(s, "Reroll") {
            Some(RerollCommands::Reroll)
        } else if str_eq(s, "End") {
            Some(RerollCommands::End)
        } else {
            None
        }
    }

    /// The label shown on the button for this choice.
    pub fn label(&self) -> (r: String)
        ensures
            *self == RerollCommands::Reroll ==> r@ == "Reroll"@,
            *self == RerollCommands::End ==> r@ == "End"@,
    {
        match self {
            RerollCommands::Reroll => String::from_str("Reroll"),
            RerollCommands::End => String::from_str("End"),
        }
    }
}

/// The choices offered while the giveaway list is shown.
#[derive(Clone, Copy, PartialEq, Eq, Structural, Debug)]
pub enum ListCommands {
    ShowParticipants,
    Return,
}

/// The choice a message text selects in the list: one of the two
/// labels, or nothing, so that any other text stays unrecognized and
/// the chat remains in the list.
pub open spec fn spec_list_of(s: Seq<char>) -> Option<ListCommands> {
    if s == "Show participants"@ {
        Some(ListCommands::ShowParticipants)
    } else if s == "Go back"@ {
        Some(ListCommands::Return)
    } else {
        None
    }
}

impl ListCommands {
    /// Matches a message text against the list labels.
    pub fn parse(s: &str) -> (r: Option<Self>)
        ensures
            r == spec_list_of(s@),
    {
        if str_eq(s, "Show participants") {
            Some(ListCommands::ShowParticipants)
        } else if str_eq(s, "Go back") {
            Some(ListCommands::Return)
        } else {
            None
        }
    }

    /// The label shown on the button for this choice.
    pub fn label(&self) -> (r: String)
        ensures
            *self == ListCommands::ShowParticipants ==> r@ == "Show participants"@,
            *self == ListCommands::Return ==> r@ == "Go back"@,
    {
        match self {
            ListCommands::ShowParticipants => String::from_str("Show participants"),
            ListCommands::Return => String::from_str("Go back"),
        }
    }
}

/// The input classes the transition table distinguishes. The routing
/// layer classifies each inbound event into one of these; input that
/// fits no row of the table is `Unrecognized`.
#[derive(Clone, Copy, PartialEq, Eq, Structural, Debug)]
pub enum Trigger {
    /// The entry command without a payload.
    StartCommand,
    /// The entry command with a deep-link payload: handled by the
    /// participation gate, no state change.
    StartDeepLink,
    /// Menu choice: create a giveaway.
    MenuCreate,
    /// Menu choice: cancel a giveaway.
    MenuCancel,
    /// Menu choice: show the list; the flag says whether any giveaway
    /// exists to be listed.
    MenuList { has_giveaways: bool },
    /// Menu choice: publish to a group.
    MenuAddGroup,
    /// Menu choice: end a giveaway by drawing winners.
    MenuEnd,
    /// A message carrying both a photo and a caption.
    PhotoWithCaption,
    /// A message missing the photo or the caption.
    MissingPhotoOrCaption,
    /// An id text answering a prompt for one.
    IdText,
    /// The publish request text; valid or not, the chat returns to the
    /// menu, published or with the failure reported.
    PublishText,
    /// A draw request whose giveaway id parsed.
    DrawValidId,
    /// A draw request whose giveaway id did not parse.
    DrawInvalidId,
    /// After a draw: finish the giveaway.
    RerollEnd,
    /// After a draw: draw again.
    RerollAgain,
    /// In the list: show the participants of one giveaway.
    ListShowParticipants,
    /// In the list: go back to the menu.
    ListReturn,
    /// Input that fits no row of the table.
    Unrecognized,
}

/// The transition table: the next state of a chat in state `s` that
/// received an input of class `t`. Every pairing outside the table
/// leaves the state unchanged.
pub open spec fn spec_next(s: State, t: Trigger) -> State {
    match s {
        State::Start => match t {
            Trigger::StartCommand => State::StartedWindow,
            Trigger::StartDeepLink => State::Start,
            _ => State::Start,
        },
        State::StartedWindow => match t {
            Trigger::MenuCreate => State::CreateGiveaway,
            Trigger::MenuCancel => State::CancelGiveaway,
            Trigger::MenuList { has_giveaways } => if has_giveaways {
                State::List
            } else {
                State::StartedWindow
            },
            Trigger::MenuAddGroup => State::AddGroupId,
            Trigger::MenuEnd => State::EndGiveaway,
            _ => State::StartedWindow,
        },
        State::CreateGiveaway => match t {
            Trigger::PhotoWithCaption => State::StartedWindow,
            Trigger::MissingPhotoOrCaption => State::CreateGiveaway,
            _ => State::CreateGiveaway,
        },
        State::CancelGiveaway => match t {
            Trigger::IdText => State::StartedWindow,
            _ => State::CancelGiveaway,
        },
        State::AddGroupId => match t {
            Trigger::PublishText => State::StartedWindow,
            _ => State::AddGroupId,
        },
        State::EndGiveaway => match t {
            Trigger::DrawValidId => State::RerollOrEnd,
            Trigger::DrawInvalidId => State::StartedWindow,
            _ => State::EndGiveaway,
        },
        State::RerollOrEnd => match t {
            Trigger::RerollEnd => State::CancelGiveaway,
            Trigger::RerollAgain => State::EndGiveaway,
            _ => State::RerollOrEnd,
        },
        State::List => match t {
            Trigger::ListShowParticipants => State::ShowParticipants,
            Trigger::ListReturn => State::StartedWindow,
            _ => State::List,
        },
        State::ShowParticipants => match t {
            Trigger::IdText => State::StartedWindow,
            _ => State::ShowParticipants,
        },
    }
}

/// Moves a chat's state by one step of the transition table.
pub fn next_state(s: State, t: Trigger) -> (r: State)
    ensures
        r == spec_next(s, t),
{
    match s {
        State::Start => match t {
            Trigger::StartCommand => State::StartedWindow,
            _ => State::Start,
        },
        State::StartedWindow => match t {
            Trigger::MenuCreate => State::CreateGiveaway,
            Trigger::MenuCancel => State::CancelGiveaway,
            Trigger::MenuList { has_giveaways } => if has_giveaways {
                State::List
            } else {
                State::StartedWindow
            },
            Trigger::MenuAddGroup => State::AddGroupId,
            Trigger::MenuEnd => State::EndGiveaway,
            _ => State::StartedWindow,
        },
        State::CreateGiveaway => match t {
            Trigger::PhotoWithCaption => State::StartedWindow,
            _ => State::CreateGiveaway,
        },
        State::CancelGiveaway => match t {
            Trigger::IdText => State::StartedWindow,
            _ => State::CancelGiveaway,
        },
        State::AddGroupId => match t {
            Trigger::PublishText => State::StartedWindow,
            _ => State::AddGroupId,
        },
        State::EndGiveaway => match t {
            Trigger::DrawValidId => State::RerollOrEnd,
            Trigger::DrawInvalidId => State::StartedWindow,
            _ => State::EndGiveaway,
        },
        State::RerollOrEnd => match t {
            Trigger::RerollEnd => State::CancelGiveaway,
            Trigger::RerollAgain => State::EndGiveaway,
            _ => State::RerollOrEnd,
        },
        State::List => match t {
            Trigger::ListShowParticipants => State::ShowParticipants,
            Trigger::ListReturn => State::StartedWindow,
            _ => State::List,
        },
        State::ShowParticipants => match t {
            Trigger::IdText => State::StartedWindow,
            _ => State::ShowParticipants,
        },
    }
}

/// Unrecognized input never moves a chat's state, whatever state it is
/// in.
pub proof fn lemma_unrecognized_keeps_state(s: State)
    ensures
        spec_next(s, Trigger::Unrecognized) == s,
{
}

/// A deep-link entry delegates to the participation gate and leaves an
/// idle chat idle.
pub proof fn lemma_deep_link_keeps_idle()
    ensures
        spec_next(State::Start, Trigger::StartDeepLink) == State::Start,
{
}

/// No conversation state is a dead end: from every state, some input,
/// followed by at most one more, brings the chat back to the menu.
pub proof fn lemma_no_dangling_state(s: State)
    ensures
        exists|t1: Trigger, t2: Trigger|
            #[trigger] spec_next(spec_next(s, t1), t2) == State::StartedWindow,
{
    match s {
        State::Start => {
            assert(spec_next(
                spec_next(State::Start, Trigger::StartCommand),
                Trigger::Unrecognized,
            ) == State::StartedWindow);
        },
        State::StartedWindow => {
            assert(spec_next(
                spec_next(State::StartedWindow, Trigger::Unrecognized),
                Trigger::Unrecognized,
            ) == State::StartedWindow);
        },
        State::CreateGiveaway => {
            assert(spec_next(
                spec_next(State::CreateGiveaway, Trigger::PhotoWithCaption),
                Trigger::Unrecognized,
            ) == State::StartedWindow);
        },
        State::CancelGiveaway => {
            assert(spec_next(
                spec_next(State::CancelGiveaway, Trigger::IdText),
                Trigger::Unrecognized,
            ) == State::StartedWindow);
        },
        State::AddGroupId => {
            assert(spec_next(
                spec_next(State::AddGroupId, Trigger::PublishText),
                Trigger::Unrecognized,
            ) == State::StartedWindow);
        },
        State::EndGiveaway => {
            assert(spec_next(
                spec_next(State::EndGiveaway, Trigger::DrawInvalidId),
                Trigger::Unrecognized,
            ) == State::StartedWindow);
        },
        State::RerollOrEnd => {
            assert(spec_next(
                spec_next(State::RerollOrEnd, Trigger::RerollEnd),
                Trigger::IdText,
            ) == State::StartedWindow);
        },
        State::List => {
            assert(spec_next(spec_next(State::List, Trigger::ListReturn), Trigger::Unrecognized)
                == State::StartedWindow);
        },
        State::ShowParticipants => {
            assert(spec_next(
                spec_next(State::ShowParticipants, Trigger::IdText),
                Trigger::Unrecognized,
            ) == State::StartedWindow);
        },
    }
}

} // verus!

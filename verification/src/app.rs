//! The state of the client and the rules by which it changes.
//!
//! One value of [`App`] holds everything the interface shows. The event loop
//! owns it and is its only writer: key presses and the results of background
//! fetches reach it as calls of the methods below, none of which performs any
//! I/O.
use vstd::prelude::*;
use vstd::string::*;
use vstd::hash_map::StringHashMap;
use vstd::hash_set::StringHashSet;
use std::time::{Duration, Instant};
use crate::cursor::{
    byte_len, byte_len_of, char_pos, cursor_left, cursor_right, insert_at, lemma_delete_boundary,
    lemma_empty_boundary, lemma_end_on_boundary, lemma_insert_boundary, lemma_right_boundary,
    on_boundary, remove_before, step_left, step_right, text_after_delete, utf8_len,
};
use crate::delta::{has_new, merge, merged};
use crate::models::{
    clone_channels, clone_messages, same_messages, Channel, ChannelMember, Chat, ChatMember,
    Message, Team,
    User,
};
use crate::text::{chars_of, push_str_chars, slice_of, str_eq, string_of};

verus! {

#[verifier::external_type_specification]
#[verifier::external_body]
pub struct ExInstant(Instant);

/// `Instant::now` reads the monotonic clock. Nothing is claimed of the value.
pub assume_specification[ Instant::now ]() -> (r: Instant)
;

/// `Instant::elapsed` measures the time since the instant. Nothing is claimed
/// of the value.
pub assume_specification[ Instant::elapsed ](since: &Instant) -> (r: Duration)
;

/// `Duration::as_nanos` gives the length of a span in nanoseconds. Nothing is
/// claimed of the number; verified code takes it as it comes.
pub assume_specification[ Duration::as_nanos ](span: &Duration) -> (r: u128)
;

/// A span of time in nanoseconds.
#[derive(Debug, Clone, Copy, PartialEq, Eq, Structural)]
pub struct Interval {
    pub nanos: u128,
}

impl Interval {
    /// A span of whole seconds.
    pub fn from_secs(secs: u64) -> (r: Self)
        ensures
            r.nanos == secs * 1_000_000_000,
    {
        Interval { nanos: secs as u128 * 1_000_000_000 }
    }

    /// A span of whole milliseconds.
    pub fn from_millis(millis: u64) -> (r: Self)
        ensures
            r.nanos == millis * 1_000_000,
    {
        Interval { nanos: millis as u128 * 1_000_000 }
    }
}

/// A user offered as the partner of a new chat.
#[derive(Debug, Clone)]
pub struct UserSuggestion {
    pub display_name: String,
    pub email: String,
    pub id: String,
}

#[derive(Debug, Clone, Copy, PartialEq, Eq, Structural)]
pub enum Panel {
    ChatList,
    Messages,
    Input,
}

#[derive(Debug, Clone, Copy, PartialEq, Eq, Structural)]
pub enum ViewMode {
    Chats,
    Teams,
}

#[derive(Debug, Clone, Copy, PartialEq, Eq, Structural)]
pub enum TeamsPanel {
    TeamList,
    ChannelList,
    ChannelMessages,
    ChannelInput,
}

#[derive(Debug, Clone)]
pub enum AppScreen {
    Loading { message: String },
    Main,
    Error { message: String },
}

#[derive(Debug, Clone, PartialEq)]
pub enum DialogMode {
    /// No dialog is open.
    Closed,
    NewChat,
    ReactionPicker,
    PresencePicker,
    Error(ErrorInfo),
}

#[derive(Debug, Clone, PartialEq)]
pub struct ErrorInfo {
    pub title: String,
    pub message: String,
    pub details: String,
}

pub struct App {
    pub screen: AppScreen,
    pub active_panel: Panel,
    pub view_mode: ViewMode,
    // Chats
    pub chats: Vec<Chat>,
    pub selected_chat: usize,
    pub messages: Vec<Message>,
    pub input: String,
    pub input_cursor: usize,
    // User
    pub current_user: Option<User>,
    pub status_message: String,
    // Scrolling
    pub scroll_offset: usize,
    // Refresh
    pub last_refresh: Instant,
    pub refresh_interval: Interval,
    // New chat dialog
    pub new_chat_mode: bool,
    pub new_chat_input: String,
    pub new_chat_cursor: usize,
    pub suggestions: Vec<UserSuggestion>,
    pub selected_suggestion: usize,
    pub last_search_query: String,
    // Dialog mode
    pub dialog: DialogMode,
    // Message selection
    pub selected_message: Option<usize>,
    pub selected_channel_message: Option<usize>,
    pub selected_reaction: usize,
    // Presence
    pub my_presence: String,
    pub presence_map: StringHashMap<String>,
    pub selected_presence: usize,
    // Teams and channels
    pub teams: Vec<Team>,
    pub selected_team: usize,
    pub channels: Vec<Channel>,
    pub selected_channel: usize,
    pub channel_messages: Vec<Message>,
    pub channel_input: String,
    pub channel_input_cursor: usize,
    pub channel_scroll_offset: usize,
    pub teams_panel: TeamsPanel,
    // Caches for instant navigation
    pub channels_cache: StringHashMap<Vec<Channel>>,
    pub channel_message_cache: StringHashMap<Vec<Message>>,
    // Channel members
    pub channel_members: Vec<ChannelMember>,
    pub show_members: bool,
    // Permission state
    pub channel_permission_denied: bool,
    // Unread tracking
    pub total_unread: i32,
    pub known_message_ids: StringHashSet,
    // Reply state
    pub reply_to_message_id: Option<String>,
    pub reply_to_preview: String,
    // Edit state
    pub editing_message_id: Option<String>,
    // Pagination
    pub messages_next_link: Option<String>,
    pub channel_messages_next_link: Option<String>,
    pub loading_more_messages: bool,
    // Synchronisation tokens, by chat
    pub chat_delta_links: StringHashMap<String>,
}

/// The index after `cur` in a list of `len` items, stopping at the last one.
/// An empty list leaves the index alone.
pub open spec fn index_after(cur: usize, len: nat) -> usize {
    if len == 0 {
        cur
    } else if cur + 1 < len {
        (cur + 1) as usize
    } else {
        (len - 1) as usize
    }
}

/// The index before `cur`, stopping at 0.
pub open spec fn index_before(cur: usize) -> usize {
    if cur == 0 {
        0
    } else {
        (cur - 1) as usize
    }
}

/// A scroll offset moved up by `by`, stopping at the largest value.
pub open spec fn scrolled_up(offset: usize, by: nat) -> usize {
    if offset + by <= usize::MAX {
        (offset + by) as usize
    } else {
        usize::MAX
    }
}

/// A scroll offset moved down by `by`, stopping at 0.
pub open spec fn scrolled_down(offset: usize, by: nat) -> usize {
    if offset >= by {
        (offset - by) as usize
    } else {
        0
    }
}

fn next_index(cur: usize, len: usize) -> (r: usize)
    ensures
        r == index_after(cur, len as nat),
{
    if len == 0 {
        cur
    } else if cur < len - 1 {
        cur + 1
    } else {
        len - 1
    }
}

fn prev_index(cur: usize) -> (r: usize)
    ensures
        r == index_before(cur),
{
    if cur == 0 {
        0
    } else {
        cur - 1
    }
}

fn scroll_up_by(offset: usize, by: usize) -> (r: usize)
    ensures
        r == scrolled_up(offset, by as nat),
{
    if offset <= usize::MAX - by {
        offset + by
    } else {
        usize::MAX
    }
}

fn scroll_down_by(offset: usize, by: usize) -> (r: usize)
    ensures
        r == scrolled_down(offset, by as nat),
{
    if offset >= by {
        offset - by
    } else {
        0
    }
}

impl Panel {
    /// The panel after this one, in a cycle.
    pub open spec fn next(self) -> Panel {
        match self {
            Panel::ChatList => Panel::Messages,
            Panel::Messages => Panel::Input,
            Panel::Input => Panel::ChatList,
        }
    }

    /// The panel before this one, in a cycle.
    pub open spec fn prev(self) -> Panel {
        match self {
            Panel::ChatList => Panel::Input,
            Panel::Messages => Panel::ChatList,
            Panel::Input => Panel::Messages,
        }
    }
}

impl TeamsPanel {
    /// The panel after this one, in a cycle.
    pub open spec fn next(self) -> TeamsPanel {
        match self {
            TeamsPanel::TeamList => TeamsPanel::ChannelList,
            TeamsPanel::ChannelList => TeamsPanel::ChannelMessages,
            TeamsPanel::ChannelMessages => TeamsPanel::ChannelInput,
            TeamsPanel::ChannelInput => TeamsPanel::TeamList,
        }
    }

    /// The panel before this one, in a cycle.
    pub open spec fn prev(self) -> TeamsPanel {
        match self {
            TeamsPanel::TeamList => TeamsPanel::ChannelInput,
            TeamsPanel::ChannelList => TeamsPanel::TeamList,
            TeamsPanel::ChannelMessages => TeamsPanel::ChannelList,
            TeamsPanel::ChannelInput => TeamsPanel::ChannelMessages,
        }
    }
}

impl App {
    /// Whether this is the state that the client starts in: the loading
    /// screen, the chat view with its list in focus, nothing loaded, nothing
    /// selected, nothing typed and every cache empty.
    pub open spec fn is_initial(&self) -> bool {
        &&& self.screen is Loading
        &&& self.screen->Loading_message@ == "Starting..."@
        &&& self.active_panel == Panel::ChatList
        &&& self.view_mode == ViewMode::Chats
        &&& self.chats@.len() == 0
        &&& self.selected_chat == 0
        &&& self.messages@.len() == 0
        &&& self.input@.len() == 0
        &&& self.input_cursor == 0
        &&& self.current_user is None
        &&& self.status_message@.len() == 0
        &&& self.scroll_offset == 0
        &&& self.refresh_interval.nanos == 15_000_000_000
        &&& !self.new_chat_mode
        &&& self.new_chat_input@.len() == 0
        &&& self.new_chat_cursor == 0
        &&& self.suggestions@.len() == 0
        &&& self.selected_suggestion == 0
        &&& self.last_search_query@.len() == 0
        &&& self.dialog is Closed
        &&& self.selected_message is None
        &&& self.selected_channel_message is None
        &&& self.selected_reaction == 0
        &&& self.my_presence@ == "PresenceUnknown"@
        &&& self.presence_map@ == Map::<Seq<char>, String>::empty()
        &&& self.selected_presence == 0
        &&& self.teams@.len() == 0
        &&& self.selected_team == 0
        &&& self.channels@.len() == 0
        &&& self.selected_channel == 0
        &&& self.channel_messages@.len() == 0
        &&& self.channel_input@.len() == 0
        &&& self.channel_input_cursor == 0
        &&& self.channel_scroll_offset == 0
        &&& self.teams_panel == TeamsPanel::TeamList
        &&& self.channels_cache@ == Map::<Seq<char>, Vec<Channel>>::empty()
        &&& self.channel_message_cache@ == Map::<Seq<char>, Vec<Message>>::empty()
        &&& self.channel_members@.len() == 0
        &&& !self.show_members
        &&& !self.channel_permission_denied
        &&& self.total_unread == 0
        &&& self.known_message_ids@ == Set::<Seq<char>>::empty()
        &&& self.reply_to_message_id is None
        &&& self.reply_to_preview@.len() == 0
        &&& self.editing_message_id is None
        &&& self.messages_next_link is None
        &&& self.channel_messages_next_link is None
        &&& !self.loading_more_messages
        &&& self.chat_delta_links@ == Map::<Seq<char>, String>::empty()
    }

    /// Whether the cursor of each of the three inputs lies between two
    /// characters of its text, or at one of its ends.
    pub open spec fn cursors_valid(&self) -> bool {
        &&& on_boundary(self.input@, self.input_cursor as nat)
        &&& on_boundary(self.new_chat_input@, self.new_chat_cursor as nat)
        &&& on_boundary(self.channel_input@, self.channel_input_cursor as nat)
    }

    /// The state that the client starts in.
    pub fn new() -> (r: Self)
        ensures
            r.is_initial(),
            r.cursors_valid(),
    {
        proof {
            lemma_empty_boundary(Seq::<char>::empty());
        }
        App {
            screen: AppScreen::Loading { message: String::from_str("Starting...") },
            active_panel: Panel::ChatList,
            view_mode: ViewMode::Chats,
            chats: Vec::new(),
            selected_chat: 0,
            messages: Vec::new(),
            input: String::new(),
            input_cursor: 0,
            current_user: None,
            status_message: String::new(),
            scroll_offset: 0,
            last_refresh: Instant::now(),
            refresh_interval: Interval::from_secs(15),
            new_chat_mode: false,
            new_chat_input: String::new(),
            new_chat_cursor: 0,
            suggestions: Vec::new(),
            selected_suggestion: 0,
            last_search_query: String::new(),
            dialog: DialogMode::Closed,
            selected_message: None,
            selected_channel_message: None,
            selected_reaction: 0,
            my_presence: String::from_str("PresenceUnknown"),
            presence_map: StringHashMap::new(),
            selected_presence: 0,
            teams: Vec::new(),
            selected_team: 0,
            channels: Vec::new(),
            selected_channel: 0,
            channel_messages: Vec::new(),
            channel_input: String::new(),
            channel_input_cursor: 0,
            channel_scroll_offset: 0,
            teams_panel: TeamsPanel::TeamList,
            channels_cache: StringHashMap::new(),
            channel_message_cache: StringHashMap::new(),
            channel_members: Vec::new(),
            show_members: false,
            channel_permission_denied: false,
            total_unread: 0,
            known_message_ids: StringHashSet::new(),
            reply_to_message_id: None,
            reply_to_preview: String::new(),
            editing_message_id: None,
            messages_next_link: None,
            channel_messages_next_link: None,
            loading_more_messages: false,
            chat_delta_links: StringHashMap::new(),
        }
    }

    /// The id of the signed-in user, empty while nobody is signed in.
    pub open spec fn user_id(&self) -> Seq<char> {
        match self.current_user {
            Some(u) => u.id@,
            None => Seq::<char>::empty(),
        }
    }

    /// The id of the signed-in user, empty while nobody is signed in.
    pub fn current_user_id(&self) -> (r: &str)
        ensures
            r@ == self.user_id(),
    {
        match &self.current_user {
            Some(u) => u.id.as_str(),
            None => {
                proof {
                    reveal_strlit("");
                }
                assert(""@ =~= Seq::<char>::empty());
                ""
            },
        }
    }

    /// The id of the selected chat, if the selection points at one.
    pub fn selected_chat_id(&self) -> (r: Option<&str>)
        ensures
            match r {
                Some(id) => self.selected_chat < self.chats@.len() && id@
                    == self.chats@[self.selected_chat as int].id@,
                None => self.selected_chat >= self.chats@.len(),
            },
    {
        if self.selected_chat < self.chats.len() {
            Some(self.chats[self.selected_chat].id.as_str())
        } else {
            None
        }
    }

    /// The name of the selected chat as the signed-in user sees it.
    pub fn selected_chat_name(&self) -> (r: String)
        ensures
            r@ == if self.selected_chat < self.chats@.len() {
                self.chats@[self.selected_chat as int].display_name_spec(self.user_id())
            } else {
                "No chat selected"@
            },
    {
        if self.selected_chat < self.chats.len() {
            self.chats[self.selected_chat].display_name(self.current_user_id())
        } else {
            String::from_str("No chat selected")
        }
    }

    /// Moves the chat selection down by one, stopping at the last chat.
    pub fn select_next_chat(&mut self)
        ensures
            *final(self) == (App {
                selected_chat: index_after(old(self).selected_chat, old(self).chats@.len()),
                ..*old(self)
            }),
    {
        self.selected_chat = next_index(self.selected_chat, self.chats.len());
    }

    /// Moves the chat selection up by one, stopping at the first chat.
    pub fn select_prev_chat(&mut self)
        ensures
            *final(self) == (App {
                selected_chat: index_before(old(self).selected_chat),
                ..*old(self)
            }),
    {
        self.selected_chat = prev_index(self.selected_chat);
    }

    /// Moves the focus to the next panel of the chat view.
    pub fn next_panel(&mut self)
        ensures
            *final(self) == (App { active_panel: old(self).active_panel.next(), ..*old(self) }),
    {
        self.active_panel =
        match self.active_panel {
            Panel::ChatList => Panel::Messages,
            Panel::Messages => Panel::Input,
            Panel::Input => Panel::ChatList,
        };
    }

    /// Moves the focus to the previous panel of the chat view.
    pub fn prev_panel(&mut self)
        ensures
            *final(self) == (App { active_panel: old(self).active_panel.prev(), ..*old(self) }),
    {
        self.active_panel =
        match self.active_panel {
            Panel::ChatList => Panel::Input,
            Panel::Messages => Panel::ChatList,
            Panel::Input => Panel::Messages,
        };
    }

    /// Scrolls the messages up by three lines.
    pub fn scroll_messages_up(&mut self)
        ensures
            *final(self) == (App {
                scroll_offset: scrolled_up(old(self).scroll_offset, 3),
                ..*old(self)
            }),
    {
        self.scroll_offset = scroll_up_by(self.scroll_offset, 3);
    }

    /// Scrolls the messages down by three lines.
    pub fn scroll_messages_down(&mut self)
        ensures
            *final(self) == (App {
                scroll_offset: scrolled_down(old(self).scroll_offset, 3),
                ..*old(self)
            }),
    {
        self.scroll_offset = scroll_down_by(self.scroll_offset, 3);
    }

    /// Whether a refresh is due when `elapsed` nanoseconds have passed since
    /// the last one: when that is at least the refresh interval.
    pub open spec fn refresh_due(&self, elapsed: u128) -> bool {
        elapsed >= self.refresh_interval.nanos
    }

    /// Whether a refresh is due when `elapsed` nanoseconds have passed since
    /// the last one.
    pub fn should_refresh_after(&self, elapsed: u128) -> (r: bool)
        ensures
            r == self.refresh_due(elapsed),
    {
        elapsed >= self.refresh_interval.nanos
    }

    /// Whether the refresh interval has passed since the last refresh, by the
    /// monotonic clock. With an interval of zero a refresh is always due.
    pub fn should_refresh(&self) -> (r: bool)
        ensures
            exists|elapsed: u128| r == self.refresh_due(elapsed),
    {
        let elapsed: u128 = self.last_refresh.elapsed().as_nanos();
        self.should_refresh_after(elapsed)
    }

    /// Records that a refresh has just happened.
    pub fn mark_refreshed(&mut self)
        ensures
            *final(self) == (App { last_refresh: final(self).last_refresh, ..*old(self) }),
    {
        let now = Instant::now();
        self.refreshed_at(now);
    }

    /// Records that the last refresh happened at `now`.
    pub fn refreshed_at(&mut self, now: Instant)
        ensures
            *final(self) == (App { last_refresh: now, ..*old(self) }),
    {
        self.last_refresh = now;
    }

    /// Shows the picker of availabilities, with the first one selected.
    pub fn open_presence_picker(&mut self)
        ensures
            *final(self) == (App {
                dialog: DialogMode::PresencePicker,
                selected_presence: 0,
                ..*old(self)
            }),
    {
        self.dialog = DialogMode::PresencePicker;
        self.selected_presence = 0;
    }

    /// Shows the picker of reactions, if a message is selected in the active
    /// view.
    pub fn open_reaction_picker(&mut self)
        ensures
            *final(self) == if old(self).has_selection() {
                App { dialog: DialogMode::ReactionPicker, selected_reaction: 0, ..*old(self) }
            } else {
                *old(self)
            },
    {
        let has_selection = match self.view_mode {
            ViewMode::Chats => self.selected_message.is_some(),
            ViewMode::Teams => self.selected_channel_message.is_some(),
        };
        if has_selection {
            self.dialog = DialogMode::ReactionPicker;
            self.selected_reaction = 0;
        }
    }

    /// Whether a message is selected in the active view.
    pub open spec fn has_selection(&self) -> bool {
        match self.view_mode {
            ViewMode::Chats => self.selected_message is Some,
            ViewMode::Teams => self.selected_channel_message is Some,
        }
    }

    /// Closes whatever dialog is open.
    pub fn close_dialog(&mut self)
        ensures
            *final(self) == (App { dialog: DialogMode::Closed, ..*old(self) }),
    {
        self.dialog = DialogMode::Closed;
    }

    /// Shows an error dialog with the given texts.
    pub fn show_error(&mut self, title: &str, message: &str, details: &str)
        ensures
            final(self).dialog is Error,
            final(self).dialog->Error_0.title@ == title@,
            final(self).dialog->Error_0.message@ == message@,
            final(self).dialog->Error_0.details@ == details@,
            *final(self) == (App { dialog: final(self).dialog, ..*old(self) }),
    {
        self.dialog = DialogMode::Error(
            ErrorInfo {
                title: String::from_str(title),
                message: String::from_str(message),
                details: String::from_str(details),
            },
        );
    }

    /// Switches to the chat view.
    pub fn switch_to_chats(&mut self)
        ensures
            *final(self) == (App { view_mode: ViewMode::Chats, ..*old(self) }),
    {
        self.view_mode = ViewMode::Chats;
    }

    /// Switches to the teams view.
    pub fn switch_to_teams(&mut self)
        ensures
            *final(self) == (App { view_mode: ViewMode::Teams, ..*old(self) }),
    {
        self.view_mode = ViewMode::Teams;
    }

    /// Moves the team selection down by one, stopping at the last team.
    pub fn select_next_team(&mut self)
        ensures
            *final(self) == (App {
                selected_team: index_after(old(self).selected_team, old(self).teams@.len()),
                ..*old(self)
            }),
    {
        self.selected_team = next_index(self.selected_team, self.teams.len());
    }

    /// Moves the team selection up by one, stopping at the first team.
    pub fn select_prev_team(&mut self)
        ensures
            *final(self) == (App {
                selected_team: index_before(old(self).selected_team),
                ..*old(self)
            }),
    {
        self.selected_team = prev_index(self.selected_team);
    }

    /// The id of the selected team, if the selection points at one.
    pub open spec fn selected_team_key(&self) -> Option<Seq<char>> {
        if self.selected_team < self.teams@.len() {
            Some(self.teams@[self.selected_team as int].id@)
        } else {
            None
        }
    }

    /// The id of the selected channel, if the selection points at one.
    pub open spec fn selected_channel_key(&self) -> Option<Seq<char>> {
        if self.selected_channel < self.channels@.len() {
            Some(self.channels@[self.selected_channel as int].id@)
        } else {
            None
        }
    }

    /// The id of the selected team, if the selection points at one.
    pub fn selected_team_id(&self) -> (r: Option<&str>)
        ensures
            match r {
                Some(id) => self.selected_team_key() == Some(id@),
                None => self.selected_team_key() is None,
            },
    {
        if self.selected_team < self.teams.len() {
            Some(self.teams[self.selected_team].id.as_str())
        } else {
            None
        }
    }

    /// The name of the selected team.
    pub fn selected_team_name(&self) -> (r: String)
        ensures
            r@ == if self.selected_team < self.teams@.len() {
                self.teams@[self.selected_team as int].display_name@
            } else {
                "No team selected"@
            },
    {
        if self.selected_team < self.teams.len() {
            self.teams[self.selected_team].display_name.clone()
        } else {
            String::from_str("No team selected")
        }
    }

    /// Moves the channel selection down by one, stopping at the last channel.
    pub fn select_next_channel(&mut self)
        ensures
            *final(self) == (App {
                selected_channel: index_after(
                    old(self).selected_channel,
                    old(self).channels@.len(),
                ),
                ..*old(self)
            }),
    {
        self.selected_channel = next_index(self.selected_channel, self.channels.len());
    }

    /// Moves the channel selection up by one, stopping at the first channel.
    pub fn select_prev_channel(&mut self)
        ensures
            *final(self) == (App {
                selected_channel: index_before(old(self).selected_channel),
                ..*old(self)
            }),
    {
        self.selected_channel = prev_index(self.selected_channel);
    }

    /// The id of the selected channel, if the selection points at one.
    pub fn selected_channel_id(&self) -> (r: Option<&str>)
        ensures
            match r {
                Some(id) => self.selected_channel_key() == Some(id@),
                None => self.selected_channel_key() is None,
            },
    {
        if self.selected_channel < self.channels.len() {
            Some(self.channels[self.selected_channel].id.as_str())
        } else {
            None
        }
    }

    /// The name of the selected channel, behind a `#`.
    pub fn selected_channel_name(&self) -> (r: String)
        ensures
            r@ == if self.selected_channel < self.channels@.len() {
                "# "@ + self.channels@[self.selected_channel as int].display_name@
            } else {
                "No channel selected"@
            },
    {
        if self.selected_channel < self.channels.len() {
            let mut out: Vec<char> = Vec::new();
            push_str_chars(&mut out, "# ");
            push_str_chars(&mut out, self.channels[self.selected_channel].display_name.as_str());
            assert(out@ =~= "# "@ + self.channels@[self.selected_channel as int].display_name@);
            string_of(&out)
        } else {
            String::from_str("No channel selected")
        }
    }

    /// Moves the focus to the next panel of the teams view.
    pub fn next_teams_panel(&mut self)
        ensures
            *final(self) == (App { teams_panel: old(self).teams_panel.next(), ..*old(self) }),
    {
        self.teams_panel =
        match self.teams_panel {
            TeamsPanel::TeamList => TeamsPanel::ChannelList,
            TeamsPanel::ChannelList => TeamsPanel::ChannelMessages,
            TeamsPanel::ChannelMessages => TeamsPanel::ChannelInput,
            TeamsPanel::ChannelInput => TeamsPanel::TeamList,
        };
    }

    /// Moves the focus to the previous panel of the teams view.
    pub fn prev_teams_panel(&mut self)
        ensures
            *final(self) == (App { teams_panel: old(self).teams_panel.prev(), ..*old(self) }),
    {
        self.teams_panel =
        match self.teams_panel {
            TeamsPanel::TeamList => TeamsPanel::ChannelInput,
            TeamsPanel::ChannelList => TeamsPanel::TeamList,
            TeamsPanel::ChannelMessages => TeamsPanel::ChannelList,
            TeamsPanel::ChannelInput => TeamsPanel::ChannelMessages,
        };
    }

    /// Scrolls the channel messages up by three lines.
    pub fn channel_scroll_up(&mut self)
        ensures
            *final(self) == (App {
                channel_scroll_offset: scrolled_up(old(self).channel_scroll_offset, 3),
                ..*old(self)
            }),
    {
        self.channel_scroll_offset = scroll_up_by(self.channel_scroll_offset, 3);
    }

    /// Scrolls the channel messages down by three lines.
    pub fn channel_scroll_down(&mut self)
        ensures
            *final(self) == (App {
                channel_scroll_offset: scrolled_down(old(self).channel_scroll_offset, 3),
                ..*old(self)
            }),
    {
        self.channel_scroll_offset = scroll_down_by(self.channel_scroll_offset, 3);
    }

    /// Shows or hides the list of channel members.
    pub fn toggle_members(&mut self)
        ensures
            *final(self) == (App { show_members: !old(self).show_members, ..*old(self) }),
    {
        self.show_members = !self.show_members;
    }

    /// Moves the suggestion selection up by one.
    pub fn suggestion_up(&mut self)
        ensures
            *final(self) == (App {
                selected_suggestion: index_before(old(self).selected_suggestion),
                ..*old(self)
            }),
    {
        self.selected_suggestion = prev_index(self.selected_suggestion);
    }

    /// Moves the suggestion selection down by one, stopping at the last one.
    pub fn suggestion_down(&mut self)
        ensures
            *final(self) == (App {
                selected_suggestion: index_after(
                    old(self).selected_suggestion,
                    old(self).suggestions@.len(),
                ),
                ..*old(self)
            }),
    {
        self.selected_suggestion = next_index(self.selected_suggestion, self.suggestions.len());
    }

    /// Drops the reply that was being written.
    pub fn cancel_reply(&mut self)
        ensures
            final(self).reply_to_preview@.len() == 0,
            *final(self) == (App {
                reply_to_message_id: None,
                reply_to_preview: final(self).reply_to_preview,
                ..*old(self)
            }),
    {
        self.reply_to_message_id = None;
        self.reply_to_preview = String::new();
    }

    /// Whether a reply is being written. An edit takes precedence.
    pub fn is_replying(&self) -> (r: bool)
        ensures
            r == (self.reply_to_message_id is Some && self.editing_message_id is None),
    {
        self.reply_to_message_id.is_some() && self.editing_message_id.is_none()
    }

    /// Drops the edit that was being made.
    pub fn cancel_edit(&mut self)
        ensures
            *final(self) == (App { editing_message_id: None, ..*old(self) }),
    {
        self.editing_message_id = None;
    }

    /// Whether a message is being edited.
    pub fn is_editing(&self) -> (r: bool)
        ensures
            r == self.editing_message_id is Some,
    {
        self.editing_message_id.is_some()
    }

    // ---- Typing ----

    /// Inserts `c` into the message input at the cursor and moves the cursor
    /// behind it.
    pub fn insert_char(&mut self, c: char)
        requires
            on_boundary(old(self).input@, old(self).input_cursor as nat),
            old(self).input_cursor <= usize::MAX - 4,
        ensures
            final(self).input@ == old(self).input@.insert(
                char_pos(old(self).input@, old(self).input_cursor as nat),
                c,
            ),
            final(self).input_cursor == old(self).input_cursor + utf8_len(c),
            *final(self) == (App {
                input: final(self).input,
                input_cursor: final(self).input_cursor,
                ..*old(self)
            }),
            old(self).cursors_valid() ==> final(self).cursors_valid(),
    {
        let cursor: usize = insert_at(&mut self.input, self.input_cursor, c);
        self.input_cursor = cursor;
        proof {
            lemma_insert_boundary(old(self).input@, old(self).input_cursor as nat, c);
        }
    }

    /// Deletes the character before the cursor of the message input.
    pub fn delete_char(&mut self)
        requires
            on_boundary(old(self).input@, old(self).input_cursor as nat),
        ensures
            final(self).input@ == text_after_delete(
                old(self).input@,
                old(self).input_cursor as nat,
            ),
            final(self).input_cursor == cursor_left(old(self).input@, old(self).input_cursor as nat),
            *final(self) == (App {
                input: final(self).input,
                input_cursor: final(self).input_cursor,
                ..*old(self)
            }),
            old(self).cursors_valid() ==> final(self).cursors_valid(),
    {
        let cursor: usize = remove_before(&mut self.input, self.input_cursor);
        self.input_cursor = cursor;
        proof {
            lemma_delete_boundary(old(self).input@, old(self).input_cursor as nat);
        }
    }

    /// Hands out the message input and empties it.
    pub fn take_input(&mut self) -> (r: String)
        ensures
            r == old(self).input,
            final(self).input@.len() == 0,
            *final(self) == (App { input: final(self).input, input_cursor: 0, ..*old(self) }),
            old(self).cursors_valid() ==> final(self).cursors_valid(),
    {
        proof {
            lemma_empty_boundary(Seq::<char>::empty());
        }
        let mut taken = String::new();
        std::mem::swap(&mut self.input, &mut taken);
        self.input_cursor = 0;
        taken
    }

    /// Moves the cursor of the message input one character to the left.
    pub fn move_cursor_left(&mut self)
        requires
            on_boundary(old(self).input@, old(self).input_cursor as nat),
        ensures
            *final(self) == (App {
                input_cursor: cursor_left(
                    old(self).input@,
                    old(self).input_cursor as nat,
                ) as usize,
                ..*old(self)
            }),
            old(self).cursors_valid() ==> final(self).cursors_valid(),
    {
        self.input_cursor = step_left(self.input.as_str(), self.input_cursor);
        proof {
            lemma_delete_boundary(old(self).input@, old(self).input_cursor as nat);
        }
    }

    /// Moves the cursor of the message input one character to the right.
    pub fn move_cursor_right(&mut self)
        requires
            on_boundary(old(self).input@, old(self).input_cursor as nat),
            old(self).input_cursor <= usize::MAX - 4,
        ensures
            *final(self) == (App {
                input_cursor: cursor_right(
                    old(self).input@,
                    old(self).input_cursor as nat,
                ) as usize,
                ..*old(self)
            }),
            old(self).cursors_valid() ==> final(self).cursors_valid(),
    {
        self.input_cursor = step_right(self.input.as_str(), self.input_cursor);
        proof {
            lemma_right_boundary(old(self).input@, old(self).input_cursor as nat);
        }
    }

    /// Inserts `c` into the channel input at the cursor and moves the cursor
    /// behind it.
    pub fn channel_insert_char(&mut self, c: char)
        requires
            on_boundary(old(self).channel_input@, old(self).channel_input_cursor as nat),
            old(self).channel_input_cursor <= usize::MAX - 4,
        ensures
            final(self).channel_input@ == old(self).channel_input@.insert(
                char_pos(old(self).channel_input@, old(self).channel_input_cursor as nat),
                c,
            ),
            final(self).channel_input_cursor == old(self).channel_input_cursor + utf8_len(c),
            *final(self) == (App {
                channel_input: final(self).channel_input,
                channel_input_cursor: final(self).channel_input_cursor,
                ..*old(self)
            }),
            old(self).cursors_valid() ==> final(self).cursors_valid(),
    {
        let cursor: usize = insert_at(&mut self.channel_input, self.channel_input_cursor, c);
        self.channel_input_cursor = cursor;
        proof {
            lemma_insert_boundary(old(self).channel_input@, old(self).channel_input_cursor as nat, c);
        }
    }

    /// Deletes the character before the cursor of the channel input.
    pub fn channel_delete_char(&mut self)
        requires
            on_boundary(old(self).channel_input@, old(self).channel_input_cursor as nat),
        ensures
            final(self).channel_input@ == text_after_delete(
                old(self).channel_input@,
                old(self).channel_input_cursor as nat,
            ),
            final(self).channel_input_cursor == cursor_left(
                old(self).channel_input@,
                old(self).channel_input_cursor as nat,
            ),
            *final(self) == (App {
                channel_input: final(self).channel_input,
                channel_input_cursor: final(self).channel_input_cursor,
                ..*old(self)
            }),
            old(self).cursors_valid() ==> final(self).cursors_valid(),
    {
        let cursor: usize = remove_before(&mut self.channel_input, self.channel_input_cursor);
        self.channel_input_cursor = cursor;
        proof {
            lemma_delete_boundary(old(self).channel_input@, old(self).channel_input_cursor as nat);
        }
    }

    /// Hands out the channel input and empties it.
    pub fn take_channel_input(&mut self) -> (r: String)
        ensures
            r == old(self).channel_input,
            final(self).channel_input@.len() == 0,
            *final(self) == (App {
                channel_input: final(self).channel_input,
                channel_input_cursor: 0,
                ..*old(self)
            }),
            old(self).cursors_valid() ==> final(self).cursors_valid(),
    {
        proof {
            lemma_empty_boundary(Seq::<char>::empty());
        }
        let mut taken = String::new();
        std::mem::swap(&mut self.channel_input, &mut taken);
        self.channel_input_cursor = 0;
        taken
    }

    /// Moves the cursor of the channel input one character to the left.
    pub fn channel_move_cursor_left(&mut self)
        requires
            on_boundary(old(self).channel_input@, old(self).channel_input_cursor as nat),
        ensures
            *final(self) == (App {
                channel_input_cursor: cursor_left(
                    old(self).channel_input@,
                    old(self).channel_input_cursor as nat,
                ) as usize,
                ..*old(self)
            }),
            old(self).cursors_valid() ==> final(self).cursors_valid(),
    {
        self.channel_input_cursor =
        step_left(self.channel_input.as_str(), self.channel_input_cursor);
        proof {
            lemma_delete_boundary(old(self).channel_input@, old(self).channel_input_cursor as nat);
        }
    }

    /// Moves the cursor of the channel input one character to the right.
    pub fn channel_move_cursor_right(&mut self)
        requires
            on_boundary(old(self).channel_input@, old(self).channel_input_cursor as nat),
            old(self).channel_input_cursor <= usize::MAX - 4,
        ensures
            *final(self) == (App {
                channel_input_cursor: cursor_right(
                    old(self).channel_input@,
                    old(self).channel_input_cursor as nat,
                ) as usize,
                ..*old(self)
            }),
            old(self).cursors_valid() ==> final(self).cursors_valid(),
    {
        self.channel_input_cursor =
        step_right(self.channel_input.as_str(), self.channel_input_cursor);
        proof {
            lemma_right_boundary(old(self).channel_input@, old(self).channel_input_cursor as nat);
        }
    }

    // ---- New chat dialog ----

    /// Opens the new-chat dialog with an empty input.
    pub fn enter_new_chat_mode(&mut self)
        ensures
            final(self).new_chat_input@.len() == 0,
            *final(self) == (App {
                new_chat_mode: true,
                dialog: DialogMode::NewChat,
                new_chat_input: final(self).new_chat_input,
                new_chat_cursor: 0,
                ..*old(self)
            }),
            old(self).cursors_valid() ==> final(self).cursors_valid(),
    {
        self.new_chat_mode = true;
        self.dialog = DialogMode::NewChat;
        self.new_chat_input = String::new();
        self.new_chat_cursor = 0;
        proof {
            lemma_empty_boundary(self.new_chat_input@);
        }
    }

    /// Whether this state differs from `before` in nothing but the new-chat
    /// dialog, which is closed and emptied.
    pub open spec fn left_new_chat(&self, before: &App) -> bool {
        &&& self.new_chat_input@.len() == 0
        &&& self.suggestions@.len() == 0
        &&& self.last_search_query@.len() == 0
        &&& *self == (App {
            new_chat_mode: false,
            dialog: DialogMode::Closed,
            new_chat_input: self.new_chat_input,
            new_chat_cursor: 0,
            suggestions: self.suggestions,
            selected_suggestion: 0,
            last_search_query: self.last_search_query,
            ..*before
        })
    }

    /// Closes the new-chat dialog and forgets what was typed and suggested.
    pub fn exit_new_chat_mode(&mut self)
        ensures
            final(self).left_new_chat(old(self)),
            old(self).cursors_valid() ==> final(self).cursors_valid(),
    {
        self.new_chat_mode = false;
        self.dialog = DialogMode::Closed;
        self.new_chat_input = String::new();
        self.new_chat_cursor = 0;
        self.suggestions = Vec::new();
        self.selected_suggestion = 0;
        self.last_search_query = String::new();
        proof {
            lemma_empty_boundary(self.new_chat_input@);
        }
    }

    /// Inserts `c` into the new-chat input at the cursor and moves the cursor
    /// behind it.
    pub fn new_chat_insert_char(&mut self, c: char)
        requires
            on_boundary(old(self).new_chat_input@, old(self).new_chat_cursor as nat),
            old(self).new_chat_cursor <= usize::MAX - 4,
        ensures
            final(self).new_chat_input@ == old(self).new_chat_input@.insert(
                char_pos(old(self).new_chat_input@, old(self).new_chat_cursor as nat),
                c,
            ),
            final(self).new_chat_cursor == old(self).new_chat_cursor + utf8_len(c),
            *final(self) == (App {
                new_chat_input: final(self).new_chat_input,
                new_chat_cursor: final(self).new_chat_cursor,
                ..*old(self)
            }),
            old(self).cursors_valid() ==> final(self).cursors_valid(),
    {
        let cursor: usize = insert_at(&mut self.new_chat_input, self.new_chat_cursor, c);
        self.new_chat_cursor = cursor;
        proof {
            lemma_insert_boundary(old(self).new_chat_input@, old(self).new_chat_cursor as nat, c);
        }
    }

    /// Deletes the character before the cursor of the new-chat input.
    pub fn new_chat_delete_char(&mut self)
        requires
            on_boundary(old(self).new_chat_input@, old(self).new_chat_cursor as nat),
        ensures
            final(self).new_chat_input@ == text_after_delete(
                old(self).new_chat_input@,
                old(self).new_chat_cursor as nat,
            ),
            final(self).new_chat_cursor == cursor_left(
                old(self).new_chat_input@,
                old(self).new_chat_cursor as nat,
            ),
            *final(self) == (App {
                new_chat_input: final(self).new_chat_input,
                new_chat_cursor: final(self).new_chat_cursor,
                ..*old(self)
            }),
            old(self).cursors_valid() ==> final(self).cursors_valid(),
    {
        let cursor: usize = remove_before(&mut self.new_chat_input, self.new_chat_cursor);
        self.new_chat_cursor = cursor;
        proof {
            lemma_delete_boundary(old(self).new_chat_input@, old(self).new_chat_cursor as nat);
        }
    }

    /// Hands out what was typed into the new-chat dialog and closes it.
    pub fn take_new_chat_input(&mut self) -> (r: String)
        ensures
            r == old(self).new_chat_input,
            final(self).left_new_chat(old(self)),
            old(self).cursors_valid() ==> final(self).cursors_valid(),
    {
        proof {
            lemma_empty_boundary(Seq::<char>::empty());
        }
        let mut taken = String::new();
        std::mem::swap(&mut self.new_chat_input, &mut taken);
        self.exit_new_chat_mode();
        proof {
            lemma_empty_boundary(self.new_chat_input@);
        }
        taken
    }

    /// Hands out the address of the selected suggestion and closes the
    /// new-chat dialog. Without a selected suggestion nothing changes.
    pub fn select_suggestion(&mut self) -> (r: Option<String>)
        ensures
            old(self).selected_suggestion < old(self).suggestions@.len() ==> {
                &&& r is Some
                &&& r->0 == old(self).suggestions@[old(self).selected_suggestion as int].email
                &&& final(self).left_new_chat(old(self))
            },
            old(self).selected_suggestion >= old(self).suggestions@.len() ==> {
                &&& r is None
                &&& *final(self) == *old(self)
            },
            old(self).cursors_valid() ==> final(self).cursors_valid(),
    {
        proof {
            lemma_empty_boundary(Seq::<char>::empty());
        }
        if self.selected_suggestion < self.suggestions.len() {
            let email = self.suggestions[self.selected_suggestion].email.clone();
            self.exit_new_chat_mode();
            Some(email)
        } else {
            None
        }
    }

    /// Whether a search for users is due: the input holds at least two bytes
    /// and differs from the last query.
    pub fn should_search(&self) -> (r: bool)
        ensures
            r == (byte_len(self.new_chat_input@) >= 2 && self.new_chat_input@
                != self.last_search_query@),
    {
        byte_len_of(self.new_chat_input.as_str()) >= 2 && !(self.new_chat_input
            == self.last_search_query)
    }

    // ---- Selecting a message ----

    /// Moves the selection in the chat to the previous message that a user
    /// wrote.
    pub fn select_message_up(&mut self)
        ensures
            *final(self) == (App {
                selected_message: selection_up(old(self).messages@, old(self).selected_message),
                ..*old(self)
            }),
    {
        self.selected_message = select_up(&self.messages, self.selected_message);
    }

    /// Moves the selection in the chat to the next message that a user wrote,
    /// and drops it behind the last one.
    pub fn select_message_down(&mut self)
        ensures
            *final(self) == (App {
                selected_message: selection_down(old(self).messages@, old(self).selected_message),
                ..*old(self)
            }),
    {
        self.selected_message = select_down(&self.messages, self.selected_message);
    }

    /// The id of the message selected in the chat.
    pub fn selected_message_id(&self) -> (r: Option<&str>)
        ensures
            match r {
                Some(id) => self.selected_message is Some && self.selected_message->0
                    < self.messages@.len() && id@
                    == self.messages@[self.selected_message->0 as int].id@,
                None => !(self.selected_message is Some && self.selected_message->0
                    < self.messages@.len()),
            },
    {
        match self.selected_message {
            Some(idx) => if idx < self.messages.len() {
                Some(self.messages[idx].id.as_str())
            } else {
                None
            },
            None => None,
        }
    }

    /// Moves the selection in the channel to the previous message that a user
    /// wrote.
    pub fn select_channel_message_up(&mut self)
        ensures
            *final(self) == (App {
                selected_channel_message: selection_up(
                    old(self).channel_messages@,
                    old(self).selected_channel_message,
                ),
                ..*old(self)
            }),
    {
        self.selected_channel_message =
        select_up(&self.channel_messages, self.selected_channel_message);
    }

    /// Moves the selection in the channel to the next message that a user
    /// wrote, and drops it behind the last one.
    pub fn select_channel_message_down(&mut self)
        ensures
            *final(self) == (App {
                selected_channel_message: selection_down(
                    old(self).channel_messages@,
                    old(self).selected_channel_message,
                ),
                ..*old(self)
            }),
    {
        self.selected_channel_message =
        select_down(&self.channel_messages, self.selected_channel_message);
    }

    /// The id of the message selected in the channel.
    pub fn selected_channel_message_id(&self) -> (r: Option<&str>)
        ensures
            match r {
                Some(id) => self.selected_channel_message is Some
                    && self.selected_channel_message->0 < self.channel_messages@.len() && id@
                    == self.channel_messages@[self.selected_channel_message->0 as int].id@,
                None => !(self.selected_channel_message is Some
                    && self.selected_channel_message->0 < self.channel_messages@.len()),
            },
    {
        match self.selected_channel_message {
            Some(idx) => if idx < self.channel_messages.len() {
                Some(self.channel_messages[idx].id.as_str())
            } else {
                None
            },
            None => None,
        }
    }

    /// Whether the signed-in user sent the message selected in the chat.
    pub fn is_own_selected_message(&self) -> (r: bool)
        ensures
            r == is_own(self.messages@, self.selected_message, self.user_id()),
    {
        own_selected(&self.messages, self.selected_message, self.current_user_id())
    }

    /// Whether the signed-in user sent the message selected in the channel.
    pub fn is_own_selected_channel_message(&self) -> (r: bool)
        ensures
            r == is_own(self.channel_messages@, self.selected_channel_message, self.user_id()),
    {
        own_selected(&self.channel_messages, self.selected_channel_message, self.current_user_id())
    }

    // ---- Unread tracking ----

    /// Recomputes the number of unread messages over all chats. A total
    /// outside the range of `i32` is cut to its nearest end.
    pub fn update_total_unread(&mut self)
        ensures
            *final(self) == (App {
                total_unread: clamp_i32(unread_sum(old(self).chats@)),
                ..*old(self)
            }),
    {
        let mut acc: i128 = 0;
        let mut i: usize = 0;
        assert(self.chats@.take(0) =~= Seq::<Chat>::empty());
        while i < self.chats.len()
            invariant
                i <= self.chats.len(),
                acc == unread_sum(self.chats@.take(i as int)),
                -0x8000_0000 * i <= acc <= 0x8000_0000 * i,
            decreases self.chats.len() - i,
        {
            proof {
                assert(self.chats@.take(i + 1).drop_last() =~= self.chats@.take(i as int));
                assert(self.chats@.take(i + 1).last() == self.chats@[i as int]);
            }
            let n: i32 = self.chats[i].unread_count();
            acc = acc + n as i128;
            i += 1;
        }
        assert(self.chats@.take(i as int) =~= self.chats@);
        self.total_unread =
        if acc > i32::MAX as i128 {
            i32::MAX
        } else if acc < i32::MIN as i128 {
            i32::MIN
        } else {
            acc as i32
        };
    }

    /// Replaces the set of known message ids by the ids of the visible
    /// messages and reports whether one of them was not known before. The
    /// first time, when nothing is known yet, nothing counts as new.
    pub fn detect_new_messages(&mut self) -> (r: bool)
        ensures
            r == (!old(self).known_message_ids@.is_empty() && exists|i: int|
                0 <= i < old(self).messages@.len() && !old(self).known_message_ids@.contains(
                    (#[trigger] old(self).messages@[i]).id@,
                )),
            final(self).known_message_ids@ == message_ids(old(self).messages@),
            *final(self) == (App {
                known_message_ids: final(self).known_message_ids,
                ..*old(self)
            }),
    {
        let new_ids = ids_of(&self.messages);
        let was_empty = self.known_message_ids.is_empty();
        let mut has_new: bool = false;
        let mut i: usize = 0;
        while i < self.messages.len()
            invariant
                i <= self.messages.len(),
                has_new == exists|j: int|
                    0 <= j < i && !self.known_message_ids@.contains(
                        (#[trigger] self.messages@[j]).id@,
                    ),
            decreases self.messages.len() - i,
        {
            if !self.known_message_ids.contains(self.messages[i].id.as_str()) {
                has_new = true;
            }
            i += 1;
        }
        self.known_message_ids = new_ids;
        !was_empty && has_new
    }

    // ---- Replying and editing ----

    /// Starts a reply to the message selected in the chat: remembers its id
    /// and a preview of it, drops the selection and moves the focus to the
    /// input. Without a selected message nothing changes.
    pub fn start_reply(&mut self)
        ensures
            match reply_target(old(self).messages@, old(self).selected_message) {
                Some(m) => {
                    &&& final(self).reply_to_message_id == Some(m.id)
                    &&& final(self).reply_to_preview@ == reply_preview(m)
                    &&& *final(self) == (App {
                        reply_to_message_id: final(self).reply_to_message_id,
                        reply_to_preview: final(self).reply_to_preview,
                        selected_message: None,
                        active_panel: Panel::Input,
                        ..*old(self)
                    })
                },
                None => *final(self) == *old(self),
            },
    {
        match self.selected_message {
            Some(idx) => {
                if idx < self.messages.len() {
                    let msg = &self.messages[idx];
                    let id = msg.id.clone();
                    let preview = preview_of(msg);
                    self.reply_to_message_id = Some(id);
                    self.reply_to_preview = preview;
                    self.selected_message = None;
                    self.active_panel = Panel::Input;
                }
            },
            None => {},
        }
    }

    /// Starts a reply to the message selected in the channel.
    pub fn start_channel_reply(&mut self)
        ensures
            match reply_target(old(self).channel_messages@, old(self).selected_channel_message) {
                Some(m) => {
                    &&& final(self).reply_to_message_id == Some(m.id)
                    &&& final(self).reply_to_preview@ == reply_preview(m)
                    &&& *final(self) == (App {
                        reply_to_message_id: final(self).reply_to_message_id,
                        reply_to_preview: final(self).reply_to_preview,
                        selected_channel_message: None,
                        teams_panel: TeamsPanel::ChannelInput,
                        ..*old(self)
                    })
                },
                None => *final(self) == *old(self),
            },
    {
        match self.selected_channel_message {
            Some(idx) => {
                if idx < self.channel_messages.len() {
                    let msg = &self.channel_messages[idx];
                    let id = msg.id.clone();
                    let preview = preview_of(msg);
                    self.reply_to_message_id = Some(id);
                    self.reply_to_preview = preview;
                    self.selected_channel_message = None;
                    self.teams_panel = TeamsPanel::ChannelInput;
                }
            },
            None => {},
        }
    }

    /// Starts editing the message selected in the chat, if the signed-in user
    /// sent it: remembers its id, puts its text into the input with the cursor
    /// at the end, drops the selection and moves the focus to the input.
    /// Otherwise nothing changes.
    pub fn start_edit(&mut self)
        ensures
            match edit_target(old(self).messages@, old(self).selected_message, old(self).user_id()) {
                Some(m) => {
                    &&& final(self).editing_message_id == Some(m.id)
                    &&& final(self).input@ == m.content_text_spec()
                    &&& final(self).input_cursor == capped_len(m.content_text_spec())
                    &&& *final(self) == (App {
                        editing_message_id: final(self).editing_message_id,
                        input: final(self).input,
                        input_cursor: final(self).input_cursor,
                        selected_message: None,
                        active_panel: Panel::Input,
                        ..*old(self)
                    })
                },
                None => *final(self) == *old(self),
            },
            old(self).cursors_valid() && byte_len(final(self).input@) <= usize::MAX
                ==> final(self).cursors_valid(),
    {
        match self.selected_message {
            Some(idx) => {
                if idx < self.messages.len() {
                    let own = self.messages[idx].is_sent_by(self.current_user_id());
                    if own {
                        let msg = &self.messages[idx];
                        let id = msg.id.clone();
                        let text = msg.content_text();
                        let cursor: usize = byte_len_of(text.as_str());
                        proof {
                            lemma_end_on_boundary(text@);
                        }
                        self.editing_message_id = Some(id);
                        self.input = text;
                        self.input_cursor = cursor;
                        self.selected_message = None;
                        self.active_panel = Panel::Input;
                    }
                }
            },
            None => {},
        }
    }

    /// Starts editing the message selected in the channel, if the signed-in
    /// user sent it.
    pub fn start_channel_edit(&mut self)
        ensures
            match edit_target(
                old(self).channel_messages@,
                old(self).selected_channel_message,
                old(self).user_id(),
            ) {
                Some(m) => {
                    &&& final(self).editing_message_id == Some(m.id)
                    &&& final(self).channel_input@ == m.content_text_spec()
                    &&& final(self).channel_input_cursor == capped_len(m.content_text_spec())
                    &&& *final(self) == (App {
                        editing_message_id: final(self).editing_message_id,
                        channel_input: final(self).channel_input,
                        channel_input_cursor: final(self).channel_input_cursor,
                        selected_channel_message: None,
                        teams_panel: TeamsPanel::ChannelInput,
                        ..*old(self)
                    })
                },
                None => *final(self) == *old(self),
            },
            old(self).cursors_valid() && byte_len(final(self).channel_input@) <= usize::MAX
                ==> final(self).cursors_valid(),
    {
        match self.selected_channel_message {
            Some(idx) => {
                if idx < self.channel_messages.len() {
                    let own = self.channel_messages[idx].is_sent_by(self.current_user_id());
                    if own {
                        let msg = &self.channel_messages[idx];
                        let id = msg.id.clone();
                        let text = msg.content_text();
                        let cursor: usize = byte_len_of(text.as_str());
                        proof {
                            lemma_end_on_boundary(text@);
                        }
                        self.editing_message_id = Some(id);
                        self.channel_input = text;
                        self.channel_input_cursor = cursor;
                        self.selected_channel_message = None;
                        self.teams_panel = TeamsPanel::ChannelInput;
                    }
                }
            },
            None => {},
        }
    }

    // ---- Older pages ----

    /// Puts a page of older messages in front of the visible chat messages and
    /// moves the scroll offset by two lines for each, so that the view stays
    /// where it was.
    pub fn prepend_older_messages(&mut self, older: Vec<Message>)
        ensures
            final(self).messages@ == older@ + old(self).messages@,
            *final(self) == (App {
                messages: final(self).messages,
                scroll_offset: scrolled_up(old(self).scroll_offset, 2 * older@.len()),
                ..*old(self)
            }),
    {
        let by: usize = twice(older.len());
        let mut combined = older;
        combined.append(&mut self.messages);
        self.messages = combined;
        self.scroll_offset = scroll_up_by(self.scroll_offset, by);
    }

    /// Puts a page of older messages in front of the visible channel messages.
    pub fn prepend_older_channel_messages(&mut self, older: Vec<Message>)
        ensures
            final(self).channel_messages@ == older@ + old(self).channel_messages@,
            *final(self) == (App {
                channel_messages: final(self).channel_messages,
                channel_scroll_offset: scrolled_up(
                    old(self).channel_scroll_offset,
                    2 * older@.len(),
                ),
                ..*old(self)
            }),
    {
        let by: usize = twice(older.len());
        let mut combined = older;
        combined.append(&mut self.channel_messages);
        self.channel_messages = combined;
        self.channel_scroll_offset = scroll_up_by(self.channel_scroll_offset, by);
    }
}

/// Twice `n`, capped at the largest value.
fn twice(n: usize) -> (r: usize)
    ensures
        r == if 2 * n <= usize::MAX {
            2 * n
        } else {
            usize::MAX as int
        },
{
    if n <= usize::MAX / 2 {
        2 * n
    } else {
        usize::MAX
    }
}

/// The position of the last message before `end` that a user wrote.
pub open spec fn last_user_before(msgs: Seq<Message>, end: int) -> Option<int>
    decreases end,
{
    if end <= 0 {
        None
    } else if msgs[end - 1].user_message() {
        Some(end - 1)
    } else {
        last_user_before(msgs, end - 1)
    }
}

/// The position of the first message from `start` on that a user wrote.
pub open spec fn first_user_from(msgs: Seq<Message>, start: int) -> Option<int>
    decreases msgs.len() - start,
{
    if start < 0 || start >= msgs.len() {
        None
    } else if msgs[start].user_message() {
        Some(start)
    } else {
        first_user_from(msgs, start + 1)
    }
}

/// The selection after a step up. With nothing selected, the last message of
/// a user is selected. From a selected message of a user, the one before it
/// is selected, if there is one. Any other selection stays.
pub open spec fn selection_up(msgs: Seq<Message>, sel: Option<usize>) -> Option<usize> {
    match sel {
        None => match last_user_before(msgs, msgs.len() as int) {
            Some(j) => Some(j as usize),
            None => None,
        },
        Some(cur) => if cur < msgs.len() && msgs[cur as int].user_message() {
            match last_user_before(msgs, cur as int) {
                Some(j) => Some(j as usize),
                None => Some(cur),
            }
        } else {
            Some(cur)
        },
    }
}

/// The selection after a step down. From a selected message of a user, the
/// next one is selected, or nothing behind the last. Any other selection
/// stays.
pub open spec fn selection_down(msgs: Seq<Message>, sel: Option<usize>) -> Option<usize> {
    match sel {
        None => None,
        Some(cur) => if cur < msgs.len() && msgs[cur as int].user_message() {
            match first_user_from(msgs, cur + 1) {
                Some(j) => Some(j as usize),
                None => None,
            }
        } else {
            Some(cur)
        },
    }
}

fn find_user_before(msgs: &Vec<Message>, end: usize) -> (r: Option<usize>)
    requires
        end <= msgs.len(),
    ensures
        match r {
            Some(j) => last_user_before(msgs@, end as int) == Some(j as int),
            None => last_user_before(msgs@, end as int) is None,
        },
{
    let mut i: usize = end;
    while i > 0
        invariant
            i <= end,
            end <= msgs.len(),
            last_user_before(msgs@, i as int) == last_user_before(msgs@, end as int),
        decreases i,
    {
        if msgs[i - 1].is_user_message() {
            return Some(i - 1);
        }
        i -= 1;
    }
    None
}

fn find_user_from(msgs: &Vec<Message>, start: usize) -> (r: Option<usize>)
    requires
        start <= msgs.len(),
    ensures
        match r {
            Some(j) => first_user_from(msgs@, start as int) == Some(j as int),
            None => first_user_from(msgs@, start as int) is None,
        },
{
    let mut i: usize = start;
    while i < msgs.len()
        invariant
            start <= i <= msgs.len(),
            first_user_from(msgs@, i as int) == first_user_from(msgs@, start as int),
        decreases msgs.len() - i,
    {
        if msgs[i].is_user_message() {
            return Some(i);
        }
        i += 1;
    }
    None
}

/// The selection after a step up.
pub fn select_up(msgs: &Vec<Message>, sel: Option<usize>) -> (r: Option<usize>)
    ensures
        r == selection_up(msgs@, sel),
{
    match sel {
        None => find_user_before(msgs, msgs.len()),
        Some(cur) => {
            if cur < msgs.len() && msgs[cur].is_user_message() {
                match find_user_before(msgs, cur) {
                    Some(j) => Some(j),
                    None => Some(cur),
                }
            } else {
                Some(cur)
            }
        },
    }
}

/// The selection after a step down.
pub fn select_down(msgs: &Vec<Message>, sel: Option<usize>) -> (r: Option<usize>)
    ensures
        r == selection_down(msgs@, sel),
{
    match sel {
        None => None,
        Some(cur) => {
            if cur < msgs.len() && msgs[cur].is_user_message() {
                find_user_from(msgs, cur + 1)
            } else {
                Some(cur)
            }
        },
    }
}

/// Whether the user `uid` sent the selected message.
pub open spec fn is_own(msgs: Seq<Message>, sel: Option<usize>, uid: Seq<char>) -> bool {
    sel is Some && sel->0 < msgs.len() && msgs[sel->0 as int].sent_by(uid)
}

fn own_selected(msgs: &Vec<Message>, sel: Option<usize>, uid: &str) -> (r: bool)
    ensures
        r == is_own(msgs@, sel, uid@),
{
    match sel {
        Some(idx) => idx < msgs.len() && msgs[idx].is_sent_by(uid),
        None => false,
    }
}

/// The sum of the unread counts of a list of chats.
pub open spec fn unread_sum(chats: Seq<Chat>) -> int
    decreases chats.len(),
{
    if chats.len() == 0 {
        0
    } else {
        unread_sum(chats.drop_last()) + match chats.last().unread_message_count {
            Some(n) => n as int,
            None => 0,
        }
    }
}

/// A number cut to the range of `i32`.
pub open spec fn clamp_i32(n: int) -> i32 {
    if n > i32::MAX {
        i32::MAX
    } else if n < i32::MIN {
        i32::MIN
    } else {
        n as i32
    }
}

/// The ids of a list of messages.
pub open spec fn message_ids(msgs: Seq<Message>) -> Set<Seq<char>>
    decreases msgs.len(),
{
    if msgs.len() == 0 {
        Set::<Seq<char>>::empty()
    } else {
        message_ids(msgs.drop_last()).insert(msgs.last().id@)
    }
}

/// The set of the ids of a list of messages.
pub fn ids_of(msgs: &Vec<Message>) -> (r: StringHashSet)
    ensures
        r@ == message_ids(msgs@),
{
    let mut ids = StringHashSet::new();
    let mut i: usize = 0;
    assert(msgs@.take(0) =~= Seq::<Message>::empty());
    while i < msgs.len()
        invariant
            i <= msgs.len(),
            ids@ == message_ids(msgs@.take(i as int)),
        decreases msgs.len() - i,
    {
        proof {
            assert(msgs@.take(i + 1).drop_last() =~= msgs@.take(i as int));
            assert(msgs@.take(i + 1).last() == msgs@[i as int]);
        }
        ids.insert(msgs[i].id.clone());
        i += 1;
    }
    assert(msgs@.take(i as int) =~= msgs@);
    ids
}

/// The message that a reply would answer: the selected one, if the selection
/// points at a message.
pub open spec fn reply_target(msgs: Seq<Message>, sel: Option<usize>) -> Option<Message> {
    if sel is Some && sel->0 < msgs.len() {
        Some(msgs[sel->0 as int])
    } else {
        None
    }
}

/// The message that an edit would change: the selected one, if the user `uid`
/// sent it.
pub open spec fn edit_target(msgs: Seq<Message>, sel: Option<usize>, uid: Seq<char>) -> Option<
    Message,
> {
    if is_own(msgs, sel, uid) {
        Some(msgs[sel->0 as int])
    } else {
        None
    }
}

/// The preview of a message in the reply bar: the sender's name, a colon, and
/// the first 40 characters of the text.
pub open spec fn reply_preview(m: Message) -> Seq<char> {
    let text = m.content_text_spec();
    m.sender_name_spec() + ": "@ + if text.len() > 40 {
        text.take(40)
    } else {
        text
    }
}

fn preview_of(m: &Message) -> (r: String)
    ensures
        r@ == reply_preview(*m),
{
    let mut out: Vec<char> = Vec::new();
    let name = m.sender_name();
    push_str_chars(&mut out, name.as_str());
    push_str_chars(&mut out, ": ");
    let text = chars_of(m.content_text().as_str());
    let n: usize = if text.len() > 40 {
        40
    } else {
        text.len()
    };
    let mut head = slice_of(&text, 0, n);
    assert(text@.subrange(0, n as int) =~= if text@.len() > 40 {
        text@.take(40)
    } else {
        text@
    });
    out.append(&mut head);
    assert(out@ =~= reply_preview(*m));
    string_of(&out)
}

/// The number of bytes of a text, capped at the largest cursor.
pub open spec fn capped_len(s: Seq<char>) -> usize {
    if byte_len(s) <= usize::MAX {
        byte_len(s) as usize
    } else {
        usize::MAX
    }
}

/// The id of the first channel of a list.
pub open spec fn first_channel_key(channels: Seq<Channel>) -> Option<Seq<char>> {
    if channels.len() > 0 {
        Some(channels[0].id@)
    } else {
        None
    }
}

/// Whether the visible messages `shown`, with scroll offset `offset`, are what
/// the cache holds for the channel `key`: a copy of the cached list, scrolled
/// to the end, where the cache knows the channel; nothing, where it does not.
/// Without a channel the messages `before` stay as they were.
pub open spec fn cached_messages_shown(
    cache: Map<Seq<char>, Vec<Message>>,
    key: Option<Seq<char>>,
    before: Vec<Message>,
    offset_before: usize,
    shown: Vec<Message>,
    offset: usize,
) -> bool {
    match key {
        None => shown == before && offset == offset_before,
        Some(ch) => if cache.contains_key(ch) {
            same_messages(cache[ch]@, shown@) && offset == 0
        } else {
            shown@.len() == 0 && offset == offset_before
        },
    }
}

/// The known availabilities after a list of new ones is taken in, each under
/// its user id; a later one replaces an earlier one of the same user.
pub open spec fn with_presences(known: Map<Seq<char>, String>, pairs: Seq<(String, String)>) -> Map<
    Seq<char>,
    String,
>
    decreases pairs.len(),
{
    if pairs.len() == 0 {
        known
    } else {
        with_presences(known, pairs.drop_last()).insert(pairs.last().0@, pairs.last().1)
    }
}

/// The result of a background fetch, as it arrives at the event loop.
pub enum BgResult {
    /// The channels of a team.
    Channels(String, Vec<Channel>),
    /// The messages of a channel.
    ChannelMessages(String, Vec<Message>),
    /// The availability of other users, as pairs of a user id and an
    /// availability.
    PresenceMap(Vec<(String, String)>),
    /// The availability of the signed-in user.
    MyPresence(String),
}

impl App {
    // ---- Showing what is cached ----

    /// Shows the cached messages of the selected channel, without any fetch.
    /// A channel that was never cached shows no messages. Without a selected
    /// channel nothing changes.
    pub fn show_cached_messages_for_selected_channel(&mut self)
        ensures
            cached_messages_shown(
                old(self).channel_message_cache@,
                old(self).selected_channel_key(),
                old(self).channel_messages,
                old(self).channel_scroll_offset,
                final(self).channel_messages,
                final(self).channel_scroll_offset,
            ),
            *final(self) == (App {
                channel_messages: final(self).channel_messages,
                channel_scroll_offset: final(self).channel_scroll_offset,
                ..*old(self)
            }),
    {
        if self.selected_channel < self.channels.len() {
            let id = self.channels[self.selected_channel].id.as_str();
            match self.channel_message_cache.get(id) {
                Some(cached) => {
                    let copy = clone_messages(cached);
                    self.channel_messages = copy;
                    self.channel_scroll_offset = 0;
                },
                None => {
                    self.channel_messages = Vec::new();
                },
            }
        }
    }

    /// Whether this state shows what the caches of `before` hold for the team
    /// selected there: the cached channels with the first one selected and its
    /// cached messages, or nothing where the team was never cached.
    pub open spec fn shows_cached_team(&self, before: &App) -> bool {
        match before.selected_team_key() {
            None => *self == *before,
            Some(team) => {
                &&& *self == (App {
                    channels: self.channels,
                    selected_channel: self.selected_channel,
                    channel_scroll_offset: self.channel_scroll_offset,
                    channel_messages: self.channel_messages,
                    ..*before
                })
                &&& if before.channels_cache@.contains_key(team) {
                    &&& self.channels@ == before.channels_cache@[team]@
                    &&& self.selected_channel == 0
                    &&& cached_messages_shown(
                        before.channel_message_cache@,
                        first_channel_key(self.channels@),
                        before.channel_messages,
                        0,
                        self.channel_messages,
                        self.channel_scroll_offset,
                    )
                } else {
                    &&& self.channels@.len() == 0
                    &&& self.channel_messages@.len() == 0
                    &&& self.selected_channel == before.selected_channel
                    &&& self.channel_scroll_offset == before.channel_scroll_offset
                }
            },
        }
    }

    /// Shows the cached channels of the selected team, and the cached messages
    /// of its first channel, without any fetch. A team that was never cached
    /// shows no channels and no messages. Without a selected team nothing
    /// changes. The caches themselves never change.
    pub fn show_cached_channels_for_selected_team(&mut self)
        ensures
            final(self).shows_cached_team(old(self)),
    {
        if self.selected_team < self.teams.len() {
            let id = self.teams[self.selected_team].id.as_str();
            match self.channels_cache.get(id) {
                Some(cached) => {
                    let copy = clone_channels(cached);
                    self.channels = copy;
                    self.selected_channel = 0;
                    self.channel_scroll_offset = 0;
                    self.show_cached_messages_for_selected_channel();
                },
                None => {
                    self.channels = Vec::new();
                    self.channel_messages = Vec::new();
                },
            }
        }
    }

    // ---- Results of background fetches ----

    /// Whether a result for the team `team_id` is for the team on screen.
    pub fn is_current_team(&self, team_id: &str) -> (r: bool)
        ensures
            r == (self.selected_team_key() == Some(team_id@)),
    {
        match self.selected_team_id() {
            Some(id) => str_eq(id, team_id),
            None => false,
        }
    }

    /// Whether messages of the channel `channel_id` are for the channel on
    /// screen: it is the selected channel and the teams view is active.
    pub open spec fn current_channel(&self, channel_id: Seq<char>) -> bool {
        self.selected_channel_key() == Some(channel_id) && self.view_mode == ViewMode::Teams
    }

    /// Whether messages of the channel `channel_id` are for the channel on
    /// screen.
    pub fn is_current_channel(&self, channel_id: &str) -> (r: bool)
        ensures
            r == self.current_channel(channel_id@),
    {
        let selected = match self.selected_channel_id() {
            Some(id) => str_eq(id, channel_id),
            None => false,
        };
        let teams = match self.view_mode {
            ViewMode::Teams => true,
            ViewMode::Chats => false,
        };
        selected && teams
    }

    /// Whether this state is `before` after the channels of a team arrived:
    /// the cache holds them under the team's id in any case; they are shown
    /// only if the team is still selected, and then, with the first channel
    /// selected, its cached messages are shown too. A result for another team
    /// leaves everything on screen as it was.
    pub open spec fn channels_applied(
        &self,
        before: &App,
        team_id: String,
        channels: Vec<Channel>,
    ) -> bool {
        &&& *self == (App {
            channels_cache: self.channels_cache,
            channels: self.channels,
            channel_messages: self.channel_messages,
            channel_scroll_offset: self.channel_scroll_offset,
            ..*before
        })
        &&& self.channels_cache@.contains_key(team_id@)
        &&& self.channels_cache@[team_id@]@ == channels@
        &&& self.channels_cache@ == before.channels_cache@.insert(
            team_id@,
            self.channels_cache@[team_id@],
        )
        &&& if before.selected_team_key() == Some(team_id@) {
            &&& self.channels == channels
            &&& if before.selected_channel == 0 {
                cached_messages_shown(
                    before.channel_message_cache@,
                    first_channel_key(channels@),
                    before.channel_messages,
                    before.channel_scroll_offset,
                    self.channel_messages,
                    self.channel_scroll_offset,
                )
            } else {
                self.channel_messages == before.channel_messages && self.channel_scroll_offset
                    == before.channel_scroll_offset
            }
        } else {
            &&& self.channels == before.channels
            &&& self.channel_messages == before.channel_messages
            &&& self.channel_scroll_offset == before.channel_scroll_offset
        }
    }

    /// Takes in the channels of a team that a background fetch brought.
    pub fn apply_channels(&mut self, team_id: String, channels: Vec<Channel>)
        ensures
            final(self).channels_applied(old(self), team_id, channels),
    {
        let copy = clone_channels(&channels);
        let current = self.is_current_team(team_id.as_str());
        self.channels_cache.insert(team_id, copy);
        if current {
            self.channels = channels;
            if self.selected_channel == 0 {
                self.show_cached_messages_for_selected_channel();
            }
        }
    }

    /// Whether this state is `before` after the messages of a channel arrived:
    /// the cache holds a copy of them under the channel's id in any case; they
    /// replace the visible messages only if the channel is the one on screen.
    pub open spec fn channel_messages_applied(
        &self,
        before: &App,
        channel_id: String,
        messages: Vec<Message>,
    ) -> bool {
        &&& *self == (App {
            channel_message_cache: self.channel_message_cache,
            channel_messages: self.channel_messages,
            ..*before
        })
        &&& self.channel_message_cache@.contains_key(channel_id@)
        &&& same_messages(messages@, self.channel_message_cache@[channel_id@]@)
        &&& self.channel_message_cache@ == before.channel_message_cache@.insert(
            channel_id@,
            self.channel_message_cache@[channel_id@],
        )
        &&& self.channel_messages == if before.current_channel(channel_id@) {
            messages
        } else {
            before.channel_messages
        }
    }

    /// Takes in the messages of a channel that a background fetch brought.
    pub fn apply_channel_messages(&mut self, channel_id: String, messages: Vec<Message>)
        ensures
            final(self).channel_messages_applied(old(self), channel_id, messages),
    {
        let copy = clone_messages(&messages);
        let current = self.is_current_channel(channel_id.as_str());
        self.channel_message_cache.insert(channel_id, copy);
        if current {
            self.channel_messages = messages;
        }
    }

    /// Takes in the result of a background fetch. Channels and messages always
    /// reach their cache and reach the screen only while their team or channel
    /// is the one on screen; availabilities are added to the ones known, the
    /// new ones winning; the user's own availability is replaced.
    pub fn apply_background_result(&mut self, result: BgResult)
        ensures
            match result {
                BgResult::Channels(team_id, channels) => final(self).channels_applied(
                    old(self),
                    team_id,
                    channels,
                ),
                BgResult::ChannelMessages(channel_id, messages) => final(self)
                    .channel_messages_applied(old(self), channel_id, messages),
                BgResult::PresenceMap(pairs) => {
                    &&& final(self).presence_map@ == with_presences(
                        old(self).presence_map@,
                        pairs@,
                    )
                    &&& *final(self) == (App {
                        presence_map: final(self).presence_map,
                        ..*old(self)
                    })
                },
                BgResult::MyPresence(availability) => *final(self) == (App {
                    my_presence: availability,
                    ..*old(self)
                }),
            },
    {
        match result {
            BgResult::Channels(team_id, channels) => {
                self.apply_channels(team_id, channels);
            },
            BgResult::ChannelMessages(channel_id, messages) => {
                self.apply_channel_messages(channel_id, messages);
            },
            BgResult::PresenceMap(pairs) => {
                let mut i: usize = 0;
                assert(pairs@.take(0) =~= Seq::<(String, String)>::empty());
                while i < pairs.len()
                    invariant
                        i <= pairs.len(),
                        self.presence_map@ == with_presences(
                            old(self).presence_map@,
                            pairs@.take(i as int),
                        ),
                        *self == (App { presence_map: self.presence_map, ..*old(self) }),
                    decreases pairs.len() - i,
                {
                    proof {
                        assert(pairs@.take(i + 1).drop_last() =~= pairs@.take(i as int));
                        assert(pairs@.take(i + 1).last() == pairs@[i as int]);
                    }
                    let id = pairs[i].0.clone();
                    let availability = pairs[i].1.clone();
                    self.presence_map.insert(id, availability);
                    i += 1;
                }
                assert(pairs@.take(i as int) =~= pairs@);
            },
            BgResult::MyPresence(availability) => {
                self.my_presence = availability;
            },
        }
    }

    /// The channels whose messages are fetched in the background: all channels
    /// on screen but the selected one, which is fetched at once.
    pub fn channel_preload_targets(&self) -> (r: Vec<String>)
        ensures
            texts(r@) == preload_ids(self.channels@, self.selected_channel_key()),
    {
        let mut out: Vec<String> = Vec::new();
        let mut i: usize = 0;
        let ghost skip = self.selected_channel_key();
        assert(self.channels@.take(0) =~= Seq::<Channel>::empty());
        assert(texts(out@) =~= Seq::<Seq<char>>::empty());
        while i < self.channels.len()
            invariant
                i <= self.channels.len(),
                skip == self.selected_channel_key(),
                texts(out@) == preload_ids(self.channels@.take(i as int), skip),
            decreases self.channels.len() - i,
        {
            proof {
                assert(self.channels@.take(i + 1).drop_last() =~= self.channels@.take(i as int));
                assert(self.channels@.take(i + 1).last() == self.channels@[i as int]);
            }
            let selected = match self.selected_channel_id() {
                Some(id) => str_eq(id, self.channels[i].id.as_str()),
                None => false,
            };
            if !selected {
                let ghost before = texts(out@);
                out.push(self.channels[i].id.clone());
                assert(texts(out@) =~= before.push(self.channels@[i as int].id@));
            }
            i += 1;
        }
        assert(self.channels@.take(i as int) =~= self.channels@);
        out
    }

    // ---- Results of foreground loads ----

    /// Takes in the channels of the selected team that a foreground load
    /// brought: they are cached under the team's id and shown, with the first
    /// one selected.
    pub fn channels_loaded(&mut self, team_id: String, channels: Vec<Channel>)
        ensures
            final(self).channels == channels,
            final(self).channels_cache@.contains_key(team_id@),
            final(self).channels_cache@[team_id@]@ == channels@,
            final(self).channels_cache@ == old(self).channels_cache@.insert(
                team_id@,
                final(self).channels_cache@[team_id@],
            ),
            *final(self) == (App {
                channels_cache: final(self).channels_cache,
                channels: final(self).channels,
                selected_channel: 0,
                channel_scroll_offset: 0,
                ..*old(self)
            }),
    {
        let copy = clone_channels(&channels);
        self.channels_cache.insert(team_id, copy);
        self.channels = channels;
        self.selected_channel = 0;
        self.channel_scroll_offset = 0;
    }

    /// Takes in the messages of the selected channel that a foreground load
    /// brought, with the cursor of the next older page: a copy is cached under
    /// the channel's id, the messages are shown and the status line is
    /// cleared.
    pub fn channel_messages_loaded(
        &mut self,
        channel_id: String,
        messages: Vec<Message>,
        next_link: Option<String>,
    )
        ensures
            final(self).channel_messages == messages,
            final(self).channel_message_cache@.contains_key(channel_id@),
            same_messages(messages@, final(self).channel_message_cache@[channel_id@]@),
            final(self).channel_message_cache@ == old(self).channel_message_cache@.insert(
                channel_id@,
                final(self).channel_message_cache@[channel_id@],
            ),
            final(self).status_message@.len() == 0,
            *final(self) == (App {
                channel_message_cache: final(self).channel_message_cache,
                channel_messages: final(self).channel_messages,
                channel_messages_next_link: next_link,
                status_message: final(self).status_message,
                ..*old(self)
            }),
    {
        let copy = clone_messages(&messages);
        self.channel_message_cache.insert(channel_id, copy);
        self.channel_messages = messages;
        self.channel_messages_next_link = next_link;
        self.status_message = String::new();
    }

    /// Takes in a page of older chat messages with the cursor of the page
    /// before it: the cursor is followed, never compared, and the page goes in
    /// front of the visible messages.
    pub fn older_messages_loaded(&mut self, older: Vec<Message>, next_link: Option<String>)
        ensures
            final(self).messages@ == older@ + old(self).messages@,
            *final(self) == (App {
                messages: final(self).messages,
                messages_next_link: next_link,
                scroll_offset: scrolled_up(old(self).scroll_offset, 2 * older@.len()),
                ..*old(self)
            }),
    {
        self.messages_next_link = next_link;
        self.prepend_older_messages(older);
    }

    /// Takes in a page of older channel messages with the cursor of the page
    /// before it.
    pub fn older_channel_messages_loaded(&mut self, older: Vec<Message>, next_link: Option<String>)
        ensures
            final(self).channel_messages@ == older@ + old(self).channel_messages@,
            *final(self) == (App {
                channel_messages: final(self).channel_messages,
                channel_messages_next_link: next_link,
                channel_scroll_offset: scrolled_up(
                    old(self).channel_scroll_offset,
                    2 * older@.len(),
                ),
                ..*old(self)
            }),
    {
        self.channel_messages_next_link = next_link;
        self.prepend_older_channel_messages(older);
    }

    // ---- Incremental changes ----

    /// Merges a change-set into the visible chat messages and reports whether
    /// it brought a message that was not there. Incoming messages replace the
    /// messages with their ids or are added; the messages are then ordered by
    /// creation time, and the known ids become the ids of the merged messages.
    /// An empty change-set changes nothing.
    pub fn merge_delta_messages(&mut self, delta: Vec<Message>) -> (r: bool)
        ensures
            r == has_new(old(self).messages@, delta@),
            delta@.len() == 0 ==> *final(self) == *old(self),
            delta@.len() > 0 ==> {
                &&& final(self).messages@ == merged(old(self).messages@, delta@)
                &&& final(self).known_message_ids@ == message_ids(final(self).messages@)
                &&& *final(self) == (App {
                    messages: final(self).messages,
                    known_message_ids: final(self).known_message_ids,
                    ..*old(self)
                })
            },
    {
        if delta.len() == 0 {
            return false;
        }
        let mut existing: Vec<Message> = Vec::new();
        std::mem::swap(&mut self.messages, &mut existing);
        let (all, any_new) = merge(existing, delta);
        self.known_message_ids = ids_of(&all);
        self.messages = all;
        any_new
    }
}

/// The ids of the channels other than the one with id `skip`, in order.
pub open spec fn preload_ids(channels: Seq<Channel>, skip: Option<Seq<char>>) -> Seq<Seq<char>>
    decreases channels.len(),
{
    if channels.len() == 0 {
        Seq::<Seq<char>>::empty()
    } else if skip == Some(channels.last().id@) {
        preload_ids(channels.drop_last(), skip)
    } else {
        preload_ids(channels.drop_last(), skip).push(channels.last().id@)
    }
}

/// The texts of a list of strings.
pub open spec fn texts(v: Seq<String>) -> Seq<Seq<char>> {
    Seq::new(v.len(), |i: int| v[i]@)
}

/// The user ids collected so far with those of the members of one chat that
/// are new: not the id of the user `me` and not collected before.
pub open spec fn with_member_ids(acc: Seq<Seq<char>>, members: Seq<ChatMember>, me: Seq<char>) -> Seq<
    Seq<char>,
>
    decreases members.len(),
{
    if members.len() == 0 {
        acc
    } else {
        let before = with_member_ids(acc, members.drop_last(), me);
        match members.last().user_id {
            Some(id) => if id@ != me && !before.contains(id@) {
                before.push(id@)
            } else {
                before
            },
            None => before,
        }
    }
}

/// The ids of the users whose availability is of interest: the members of all
/// chats other than the user `me`, each once, in the order in which they
/// first occur.
pub open spec fn presence_ids(chats: Seq<Chat>, me: Seq<char>) -> Seq<Seq<char>>
    decreases chats.len(),
{
    if chats.len() == 0 {
        Seq::<Seq<char>>::empty()
    } else {
        let before = presence_ids(chats.drop_last(), me);
        match chats.last().members {
            Some(members) => with_member_ids(before, members@, me),
            None => before,
        }
    }
}

fn holds(v: &Vec<String>, id: &str) -> (r: bool)
    ensures
        r == texts(v@).contains(id@),
{
    let mut i: usize = 0;
    while i < v.len()
        invariant
            i <= v.len(),
            forall|j: int| 0 <= j < i ==> texts(v@)[j] != id@,
        decreases v.len() - i,
    {
        if str_eq(v[i].as_str(), id) {
            assert(texts(v@)[i as int] == id@);
            return true;
        }
        i += 1;
    }
    false
}

impl App {
    /// The ids of the users whose availability is fetched in the background:
    /// the members of all chats other than the signed-in user, each once.
    pub fn presence_user_ids(&self) -> (r: Vec<String>)
        ensures
            texts(r@) == presence_ids(self.chats@, self.user_id()),
    {
        let me = self.current_user_id();
        let mut out: Vec<String> = Vec::new();
        let mut i: usize = 0;
        assert(self.chats@.take(0) =~= Seq::<Chat>::empty());
        assert(texts(out@) =~= Seq::<Seq<char>>::empty());
        while i < self.chats.len()
            invariant
                i <= self.chats.len(),
                me@ == self.user_id(),
                texts(out@) == presence_ids(self.chats@.take(i as int), me@),
            decreases self.chats.len() - i,
        {
            proof {
                assert(self.chats@.take(i + 1).drop_last() =~= self.chats@.take(i as int));
                assert(self.chats@.take(i + 1).last() == self.chats@[i as int]);
            }
            match &self.chats[i].members {
                Some(members) => {
                    let ghost base = texts(out@);
                    let mut k: usize = 0;
                    assert(members@.take(0) =~= Seq::<ChatMember>::empty());
                    while k < members.len()
                        invariant
                            k <= members.len(),
                            texts(out@) == with_member_ids(base, members@.take(k as int), me@),
                        decreases members.len() - k,
                    {
                        proof {
                            assert(members@.take(k + 1).drop_last() =~= members@.take(k as int));
                            assert(members@.take(k + 1).last() == members@[k as int]);
                        }
                        match &members[k].user_id {
                            Some(id) => {
                                if !str_eq(id.as_str(), me) && !holds(&out, id.as_str()) {
                                    let ghost before = texts(out@);
                                    out.push(id.clone());
                                    assert(texts(out@) =~= before.push(id@));
                                }
                            },
                            None => {},
                        }
                        k += 1;
                    }
                    assert(members@.take(k as int) =~= members@);
                },
                None => {},
            }
            i += 1;
        }
        assert(self.chats@.take(i as int) =~= self.chats@);
        out
    }

    /// Prepares the chat view for the messages of a newly selected chat: the
    /// view scrolls to the end, and the selection, the reply and the edit are
    /// dropped.
    pub fn begin_message_load(&mut self)
        ensures
            final(self).reply_to_preview@.len() == 0,
            *final(self) == (App {
                scroll_offset: 0,
                selected_message: None,
                reply_to_message_id: None,
                reply_to_preview: final(self).reply_to_preview,
                editing_message_id: None,
                ..*old(self)
            }),
    {
        self.scroll_offset = 0;
        self.selected_message = None;
        self.cancel_reply();
        self.cancel_edit();
    }

    /// Takes in the messages of the selected chat that a foreground load
    /// brought, with the cursor of the next older page: they replace the
    /// visible messages wholesale, the known ids become their ids, and the
    /// status line is cleared.
    pub fn messages_loaded(&mut self, messages: Vec<Message>, next_link: Option<String>)
        ensures
            final(self).known_message_ids@ == message_ids(messages@),
            final(self).status_message@.len() == 0,
            *final(self) == (App {
                messages,
                messages_next_link: next_link,
                known_message_ids: final(self).known_message_ids,
                status_message: final(self).status_message,
                ..*old(self)
            }),
    {
        self.messages = messages;
        self.messages_next_link = next_link;
        let _ = self.detect_new_messages();
        self.status_message = String::new();
    }

    /// Takes in the list of chats that a load brought and recomputes the
    /// number of unread messages.
    pub fn chats_loaded(&mut self, chats: Vec<Chat>)
        ensures
            *final(self) == (App {
                chats,
                total_unread: clamp_i32(unread_sum(chats@)),
                ..*old(self)
            }),
    {
        self.chats = chats;
        self.update_total_unread();
    }
}

/// Going to another team and back shows, each time, what the cache holds for
/// the team gone to, and leaves the caches as they were: the second visit
/// needs no fetch. `before` is the state at the start, `there` the state after
/// the team at `other` was selected and its cached channels shown, and `back`
/// the state after the team at `home` was selected again and its cached
/// channels shown.
pub proof fn lemma_cached_navigation(before: App, there: App, back: App, home: usize, other: usize)
    requires
        home < before.teams@.len(),
        other < before.teams@.len(),
        before.channels_cache@.contains_key(before.teams@[home as int].id@),
        before.channels_cache@.contains_key(before.teams@[other as int].id@),
        there.shows_cached_team(&(App { selected_team: other, ..before })),
        back.shows_cached_team(&(App { selected_team: home, ..there })),
    ensures
        there.channels@ == before.channels_cache@[before.teams@[other as int].id@]@,
        back.channels@ == before.channels_cache@[before.teams@[home as int].id@]@,
        there.selected_channel == 0 && back.selected_channel == 0,
        back.channels_cache == before.channels_cache,
        back.channel_message_cache == before.channel_message_cache,
        back.teams == before.teams,
{
    let at_other = App { selected_team: other, ..before };
    assert(at_other.selected_team_key() == Some(before.teams@[other as int].id@));
    let at_home = App { selected_team: home, ..there };
    assert(at_home.selected_team_key() == Some(before.teams@[home as int].id@));
}

/// The ids of the teams other than the one with id `skip`, in order.
pub open spec fn team_preload_ids(teams: Seq<Team>, skip: Option<Seq<char>>) -> Seq<Seq<char>>
    decreases teams.len(),
{
    if teams.len() == 0 {
        Seq::<Seq<char>>::empty()
    } else if skip == Some(teams.last().id@) {
        team_preload_ids(teams.drop_last(), skip)
    } else {
        team_preload_ids(teams.drop_last(), skip).push(teams.last().id@)
    }
}

/// What is on screen is never fetched in the background: the preload targets
/// of a list of channels hold every id of the list but the one left out, and
/// never that one.
pub proof fn lemma_preload_skips(channels: Seq<Channel>, skip: Seq<char>, id: Seq<char>)
    ensures
        preload_ids(channels, Some(skip)).contains(id) <==> id != skip && exists|i: int|
            0 <= i < channels.len() && (#[trigger] channels[i]).id@ == id,
    decreases channels.len(),
{
    let all = preload_ids(channels, Some(skip));
    if channels.len() > 0 {
        let init = channels.drop_last();
        let rest = preload_ids(init, Some(skip));
        lemma_preload_skips(init, skip, id);
        if exists|i: int| 0 <= i < init.len() && (#[trigger] init[i]).id@ == id {
            let i = choose|i: int| 0 <= i < init.len() && (#[trigger] init[i]).id@ == id;
            assert(channels[i].id@ == id);
        }
        if exists|i: int| 0 <= i < channels.len() && (#[trigger] channels[i]).id@ == id {
            let i = choose|i: int| 0 <= i < channels.len() && (#[trigger] channels[i]).id@ == id;
            if i < init.len() {
                assert(init[i].id@ == id);
            }
        }
        if channels.last().id@ != skip {
            if rest.contains(id) {
                let k = choose|k: int| 0 <= k < rest.len() && rest[k] == id;
                assert(all[k] == id);
            }
            if all.contains(id) {
                let k = choose|k: int| 0 <= k < all.len() && all[k] == id;
                if k < rest.len() {
                    assert(rest[k] == id);
                }
            }
            if channels.last().id@ == id {
                assert(all[rest.len() as int] == id);
            }
        }
    }
}

impl App {
    /// The teams whose channels are fetched in the background: all teams but
    /// the selected one, whose channels are fetched at once.
    pub fn team_preload_targets(&self) -> (r: Vec<String>)
        ensures
            texts(r@) == team_preload_ids(self.teams@, self.selected_team_key()),
    {
        let mut out: Vec<String> = Vec::new();
        let mut i: usize = 0;
        let ghost skip = self.selected_team_key();
        assert(self.teams@.take(0) =~= Seq::<Team>::empty());
        assert(texts(out@) =~= Seq::<Seq<char>>::empty());
        while i < self.teams.len()
            invariant
                i <= self.teams.len(),
                skip == self.selected_team_key(),
                texts(out@) == team_preload_ids(self.teams@.take(i as int), skip),
            decreases self.teams.len() - i,
        {
            proof {
                assert(self.teams@.take(i + 1).drop_last() =~= self.teams@.take(i as int));
                assert(self.teams@.take(i + 1).last() == self.teams@[i as int]);
            }
            if !self.is_current_team(self.teams[i].id.as_str()) {
                let ghost before = texts(out@);
                out.push(self.teams[i].id.clone());
                assert(texts(out@) =~= before.push(self.teams@[i as int].id@));
            }
            i += 1;
        }
        assert(self.teams@.take(i as int) =~= self.teams@);
        out
    }
}

/// The position of the first chat with the given id.
pub open spec fn chat_position(chats: Seq<Chat>, id: Seq<char>) -> Option<int>
    decreases chats.len(),
{
    if chats.len() == 0 {
        None
    } else {
        match chat_position(chats.drop_last(), id) {
            Some(j) => Some(j),
            None => if chats.last().id@ == id {
                Some(chats.len() - 1)
            } else {
                None
            },
        }
    }
}

proof fn lemma_chat_position_stable(chats: Seq<Chat>, id: Seq<char>, k: int, j: int)
    requires
        0 <= k <= chats.len(),
        chat_position(chats.take(k), id) == Some(j),
    ensures
        chat_position(chats, id) == Some(j),
    decreases chats.len() - k,
{
    if k == chats.len() {
        assert(chats.take(k) =~= chats);
    } else {
        assert(chats.take(k + 1).drop_last() =~= chats.take(k));
        lemma_chat_position_stable(chats, id, k + 1, j);
    }
}

fn find_chat(chats: &Vec<Chat>, id: &str) -> (r: Option<usize>)
    ensures
        match r {
            Some(j) => chat_position(chats@, id@) == Some(j as int) && j < chats.len(),
            None => chat_position(chats@, id@) is None,
        },
{
    let mut i: usize = 0;
    assert(chats@.take(0) =~= Seq::<Chat>::empty());
    while i < chats.len()
        invariant
            i <= chats.len(),
            chat_position(chats@.take(i as int), id@) is None,
        decreases chats.len() - i,
    {
        proof {
            assert(chats@.take(i + 1).drop_last() =~= chats@.take(i as int));
            assert(chats@.take(i + 1).last() == chats@[i as int]);
        }
        if str_eq(chats[i].id.as_str(), id) {
            proof {
                lemma_chat_position_stable(chats@, id@, i + 1, i as int);
            }
            return Some(i);
        }
        i += 1;
    }
    assert(chats@.take(i as int) =~= chats@);
    None
}

impl App {
    /// Takes in the list of chats as it is after a chat was created, and
    /// selects the new chat; the first chat is selected when the list does not
    /// hold the new one. The focus moves to the input.
    pub fn chat_created(&mut self, chats: Vec<Chat>, new_id: &str)
        ensures
            *final(self) == (App {
                chats,
                total_unread: clamp_i32(unread_sum(chats@)),
                selected_chat: match chat_position(chats@, new_id@) {
                    Some(j) => j as usize,
                    None => 0,
                },
                active_panel: Panel::Input,
                ..*old(self)
            }),
    {
        let found: usize = match find_chat(&chats, new_id) {
            Some(j) => j,
            None => 0,
        };
        self.chats_loaded(chats);
        self.selected_chat = found;
        self.active_panel = Panel::Input;
    }
}

} // verus!

//! The entities that the remote service hands out, and what the client reads
//! from them.
use vstd::prelude::*;
use vstd::string::*;
pub use crate::richtext::{parse_rich_text, RichSegment};
use crate::text::{
    chars_of, decode_entities, decode_entities_spec, push_str_chars, str_eq, string_of, trim,
    trim_spec,
};

verus! {

/// A list of entities.
#[derive(Debug, Clone)]
pub struct GraphResponse<T> {
    pub value: Vec<T>,
}

/// A page of entities, with the cursor of the next page if there is one.
#[derive(Debug, Clone)]
pub struct PagedResponse<T> {
    pub value: Vec<T>,
    pub next_link: Option<String>,
}

/// A page of changes, with the cursor of the next page or the token of the
/// next synchronisation.
#[derive(Debug, Clone)]
pub struct DeltaResponse<T> {
    pub value: Vec<T>,
    pub next_link: Option<String>,
    pub delta_link: Option<String>,
}

#[derive(Debug, Clone)]
pub struct User {
    pub id: String,
    pub display_name: String,
    pub mail: Option<String>,
    pub user_principal_name: Option<String>,
}

#[derive(Debug, Clone)]
pub struct Chat {
    pub id: String,
    pub topic: Option<String>,
    pub chat_type: String,
    pub members: Option<Vec<ChatMember>>,
    pub last_message_preview: Option<MessagePreview>,
    pub unread_message_count: Option<i32>,
}

#[derive(Debug, Clone)]
pub struct ChatMember {
    pub id: Option<String>,
    pub display_name: Option<String>,
    pub user_id: Option<String>,
}

#[derive(Debug, Clone)]
pub struct MessagePreview {
    pub body: Option<MessageBody>,
}

#[derive(Debug)]
pub struct Message {
    pub id: String,
    pub message_type: Option<String>,
    pub body: Option<MessageBody>,
    pub from: Option<MessageFrom>,
    pub created_date_time: Option<String>,
    pub reactions: Option<Vec<ChatMessageReaction>>,
    pub attachments: Vec<ChatMessageAttachment>,
}

#[derive(Debug)]
pub struct MessageBody {
    pub content: Option<String>,
    pub content_type: Option<String>,
}

#[derive(Debug)]
pub struct MessageFrom {
    pub user: Option<MessageUser>,
}

#[derive(Debug)]
pub struct MessageUser {
    pub display_name: Option<String>,
    pub id: Option<String>,
}

#[derive(Debug)]
pub struct ChatMessageAttachment {
    pub id: Option<String>,
    pub content_type: Option<String>,
    pub content_url: Option<String>,
    pub name: Option<String>,
}

#[derive(Debug)]
pub struct ChatMessageReaction {
    pub reaction_type: String,
    pub user: Option<ReactionIdentitySet>,
}

#[derive(Debug)]
pub struct ReactionIdentitySet {
    pub user: Option<MessageUser>,
}

#[derive(Debug, Clone)]
pub struct Team {
    pub id: String,
    pub display_name: String,
    pub description: Option<String>,
}

#[derive(Debug)]
pub struct Channel {
    pub id: String,
    pub display_name: String,
    pub description: Option<String>,
    pub membership_type: Option<String>,
}

#[derive(Debug, Clone)]
pub struct ChannelMember {
    pub id: Option<String>,
    pub display_name: Option<String>,
    pub roles: Vec<String>,
}

#[derive(Debug, Clone)]
pub struct Presence {
    pub availability: Option<String>,
    pub activity: Option<String>,
}

#[derive(Debug, Clone)]
pub struct PresenceResponse {
    pub value: Vec<UserPresence>,
}

#[derive(Debug, Clone)]
pub struct UserPresence {
    pub id: String,
    pub availability: Option<String>,
}

#[derive(Debug, Clone)]
pub struct DriveItem {
    pub id: String,
    pub name: String,
    pub web_url: String,
    pub e_tag: Option<String>,
    pub size: Option<i64>,
}

#[derive(Debug, Clone)]
pub struct SearchResponse {
    pub value: Vec<SearchResultSet>,
}

#[derive(Debug, Clone)]
pub struct SearchResultSet {
    pub hits_containers: Vec<HitsContainer>,
}

#[derive(Debug, Clone)]
pub struct HitsContainer {
    pub hits: Vec<SearchHit>,
    pub total: i32,
    pub more_results_available: bool,
}

#[derive(Debug, Clone)]
pub struct SearchHit {
    pub summary: Option<String>,
    pub resource: Option<SearchChatMessage>,
}

/// A message found by a search. Of the channel it was posted in, the client
/// keeps only the identifiers.
#[derive(Debug, Clone)]
pub struct SearchChatMessage {
    pub id: Option<String>,
    pub created_date_time: Option<String>,
    pub from: Option<SearchFrom>,
    pub chat_id: Option<String>,
    pub channel_identity: Option<(String, String)>,
}

#[derive(Debug, Clone)]
pub struct SearchFrom {
    pub email_address: Option<SearchEmailAddress>,
}

#[derive(Debug, Clone)]
pub struct SearchEmailAddress {
    pub name: Option<String>,
    pub address: Option<String>,
}

/// A copy of an optional string.
pub fn clone_opt(o: &Option<String>) -> (r: Option<String>)
    ensures
        r == *o,
{
    match o {
        Some(s) => Some(s.clone()),
        None => None,
    }
}

impl Clone for MessageBody {
    fn clone(&self) -> (r: Self)
        ensures
            r == *self,
    {
        MessageBody { content: clone_opt(&self.content), content_type: clone_opt(&self.content_type) }
    }
}

impl Clone for MessageUser {
    fn clone(&self) -> (r: Self)
        ensures
            r == *self,
    {
        MessageUser { display_name: clone_opt(&self.display_name), id: clone_opt(&self.id) }
    }
}

impl Clone for MessageFrom {
    fn clone(&self) -> (r: Self)
        ensures
            r == *self,
    {
        let user = match &self.user {
            Some(u) => Some(u.clone()),
            None => None,
        };
        MessageFrom { user }
    }
}

impl Clone for ReactionIdentitySet {
    fn clone(&self) -> (r: Self)
        ensures
            r == *self,
    {
        let user = match &self.user {
            Some(u) => Some(u.clone()),
            None => None,
        };
        ReactionIdentitySet { user }
    }
}

impl Clone for ChatMessageReaction {
    fn clone(&self) -> (r: Self)
        ensures
            r == *self,
    {
        let user = match &self.user {
            Some(u) => Some(u.clone()),
            None => None,
        };
        ChatMessageReaction { reaction_type: self.reaction_type.clone(), user }
    }
}

impl Clone for ChatMessageAttachment {
    fn clone(&self) -> (r: Self)
        ensures
            r == *self,
    {
        ChatMessageAttachment {
            id: clone_opt(&self.id),
            content_type: clone_opt(&self.content_type),
            content_url: clone_opt(&self.content_url),
            name: clone_opt(&self.name),
        }
    }
}

impl Clone for Channel {
    fn clone(&self) -> (r: Self)
        ensures
            r == *self,
    {
        Channel {
            id: self.id.clone(),
            display_name: self.display_name.clone(),
            description: clone_opt(&self.description),
            membership_type: clone_opt(&self.membership_type),
        }
    }
}

impl Message {
    /// Whether two messages hold the same data: equal fields, and the same
    /// reactions and attachments in the same order.
    pub open spec fn same(&self, other: &Message) -> bool {
        &&& self.id == other.id
        &&& self.message_type == other.message_type
        &&& self.body == other.body
        &&& self.from == other.from
        &&& self.created_date_time == other.created_date_time
        &&& self.reactions is Some == other.reactions is Some
        &&& self.reactions is Some ==> self.reactions->0@ == other.reactions->0@
        &&& self.attachments@ == other.attachments@
    }
}

impl Clone for Message {
    fn clone(&self) -> (r: Self)
        ensures
            self.same(&r),
    {
        let body = match &self.body {
            Some(b) => Some(b.clone()),
            None => None,
        };
        let from = match &self.from {
            Some(f) => Some(f.clone()),
            None => None,
        };
        let reactions = match &self.reactions {
            Some(v) => {
                let c = v.clone();
                assert(c@ =~= v@);
                Some(c)
            },
            None => None,
        };
        let attachments = self.attachments.clone();
        assert(attachments@ =~= self.attachments@);
        Message {
            id: self.id.clone(),
            message_type: clone_opt(&self.message_type),
            body,
            from,
            created_date_time: clone_opt(&self.created_date_time),
            reactions,
            attachments,
        }
    }
}

/// Whether two lists hold the same messages in the same order.
pub open spec fn same_messages(a: Seq<Message>, b: Seq<Message>) -> bool {
    &&& a.len() == b.len()
    &&& forall|i: int| 0 <= i < a.len() ==> (#[trigger] a[i]).same(&b[i])
}

/// A copy of a list of messages.
pub fn clone_messages(v: &Vec<Message>) -> (r: Vec<Message>)
    ensures
        same_messages(v@, r@),
{
    let mut out: Vec<Message> = Vec::new();
    let mut i: usize = 0;
    while i < v.len()
        invariant
            i <= v.len(),
            out@.len() == i,
            forall|j: int| 0 <= j < i ==> (#[trigger] v@[j]).same(&out@[j]),
        decreases v.len() - i,
    {
        out.push(v[i].clone());
        i += 1;
    }
    out
}

/// A copy of a list of channels.
pub fn clone_channels(v: &Vec<Channel>) -> (r: Vec<Channel>)
    ensures
        r@ == v@,
{
    let mut out: Vec<Channel> = Vec::new();
    let mut i: usize = 0;
    while i < v.len()
        invariant
            i <= v.len(),
            out@ == v@.take(i as int),
        decreases v.len() - i,
    {
        out.push(v[i].clone());
        i += 1;
        assert(out@ =~= v@.take(i as int));
    }
    assert(v@.take(v.len() as int) =~= v@);
    out
}

impl ChannelMember {
    /// The name to show for the member.
    pub fn name(&self) -> (r: &str)
        ensures
            r@ == match self.display_name {
                Some(n) => n@,
                None => "Unknown"@,
            },
    {
        match &self.display_name {
            Some(n) => n.as_str(),
            None => "Unknown",
        }
    }

    /// Whether one of the member's roles is `owner`.
    pub fn is_owner(&self) -> (r: bool)
        ensures
            r == exists|i: int| 0 <= i < self.roles@.len() && (#[trigger] self.roles@[i])@ == "owner"@,
    {
        let mut i: usize = 0;
        while i < self.roles.len()
            invariant
                i <= self.roles.len(),
                forall|j: int| 0 <= j < i ==> (#[trigger] self.roles@[j])@ != "owner"@,
            decreases self.roles.len() - i,
        {
            if str_eq(self.roles[i].as_str(), "owner") {
                return true;
            }
            i += 1;
        }
        false
    }
}

/// Whether a member is someone other than the user `uid`.
pub open spec fn is_other(m: ChatMember, uid: Seq<char>) -> bool {
    !(m.user_id is Some && m.user_id->0@ == uid)
}

/// The names of the members other than the user `uid`, in order; members
/// without a name are left out.
pub open spec fn other_names(members: Seq<ChatMember>, uid: Seq<char>) -> Seq<Seq<char>>
    decreases members.len(),
{
    if members.len() == 0 {
        Seq::<Seq<char>>::empty()
    } else {
        let rest = other_names(members.drop_last(), uid);
        let m = members.last();
        if is_other(m, uid) && m.display_name is Some {
            rest.push(m.display_name->0@)
        } else {
            rest
        }
    }
}

/// The names, separated by a comma and a space.
pub open spec fn join_names(names: Seq<Seq<char>>) -> Seq<char>
    decreases names.len(),
{
    if names.len() == 0 {
        Seq::<char>::empty()
    } else if names.len() == 1 {
        names[0]
    } else {
        join_names(names.drop_last()) + ", "@ + names.last()
    }
}

impl Chat {
    /// The name of the chat as the user `uid` sees it: its topic if it has a
    /// non-empty one, else the names of the other members, else `Chat`.
    pub open spec fn display_name_spec(&self, uid: Seq<char>) -> Seq<char> {
        if self.topic is Some && self.topic->0@.len() > 0 {
            self.topic->0@
        } else if self.members is Some && other_names(self.members->0@, uid).len() > 0 {
            join_names(other_names(self.members->0@, uid))
        } else {
            "Chat"@
        }
    }

    /// The name of the chat as the user `current_user_id` sees it.
    pub fn display_name(&self, current_user_id: &str) -> (r: String)
        ensures
            r@ == self.display_name_spec(current_user_id@),
    {
        match &self.topic {
            Some(topic) => {
                if !topic.as_str().is_empty() {
                    return topic.clone();
                }
            },
            None => {},
        }
        match &self.members {
            Some(members) => {
                let ghost uid = current_user_id@;
                let mut out: Vec<char> = Vec::new();
                let mut any: bool = false;
                let ghost mut names: Seq<Seq<char>> = Seq::<Seq<char>>::empty();
                let mut i: usize = 0;
                assert(members@.take(0) =~= Seq::<ChatMember>::empty());
                while i < members.len()
                    invariant
                        i <= members.len(),
                        uid == current_user_id@,
                        names == other_names(members@.take(i as int), uid),
                        out@ == join_names(names),
                        any == (names.len() > 0),
                    decreases members.len() - i,
                {
                    let m = &members[i];
                    proof {
                        assert(members@.take(i + 1).drop_last() =~= members@.take(i as int));
                        assert(members@.take(i + 1).last() == members@[i as int]);
                    }
                    let other = match &m.user_id {
                        Some(id) => !str_eq(id.as_str(), current_user_id),
                        None => true,
                    };
                    if other {
                        match &m.display_name {
                            Some(n) => {
                                if any {
                                    push_str_chars(&mut out, ", ");
                                }
                                push_str_chars(&mut out, n.as_str());
                                proof {
                                    let next = names.push(n@);
                                    assert(next.drop_last() =~= names);
                                    assert(out@ =~= join_names(next));
                                    names = next;
                                }
                                any = true;
                            },
                            None => {},
                        }
                    }
                    i += 1;
                }
                assert(members@.take(i as int) =~= members@);
                if any {
                    return string_of(&out);
                }
            },
            None => {},
        }
        String::from_str("Chat")
    }

    /// The text of the last message, without markup; empty when there is none.
    pub fn preview_text(&self) -> (r: String)
        ensures
            r@ == match self.last_message_preview {
                Some(MessagePreview { body: Some(MessageBody { content: Some(c), .. }) }) =>
                    strip_html_spec(c@),
                _ => Seq::<char>::empty(),
            },
    {
        match &self.last_message_preview {
            Some(p) => match &p.body {
                Some(b) => match &b.content {
                    Some(c) => strip_html(c.as_str()),
                    None => String::new(),
                },
                None => String::new(),
            },
            None => String::new(),
        }
    }

    /// The number of unread messages, 0 when it is not known.
    pub fn unread_count(&self) -> (r: i32)
        ensures
            r == match self.unread_message_count {
                Some(n) => n,
                None => 0,
            },
    {
        match self.unread_message_count {
            Some(n) => n,
            None => 0,
        }
    }
}

impl Message {
    /// The user who sent the message, if it names one.
    pub open spec fn sender(&self) -> Option<MessageUser> {
        match self.from {
            Some(f) => f.user,
            None => None,
        }
    }

    /// Whether a user wrote the message, as opposed to the system.
    pub open spec fn user_message(&self) -> bool {
        self.message_type is Some && self.message_type->0@ == "message"@
    }

    /// The name of the sender, `System` when the message names none.
    pub open spec fn sender_name_spec(&self) -> Seq<char> {
        match self.sender() {
            Some(MessageUser { display_name: Some(n), .. }) => n@,
            _ => "System"@,
        }
    }

    /// The text of the message without markup; empty when it has no content.
    pub open spec fn content_text_spec(&self) -> Seq<char> {
        match self.body {
            Some(MessageBody { content: Some(c), .. }) => strip_html_spec(c@),
            _ => Seq::<char>::empty(),
        }
    }

    /// Whether the message names the user `uid` as its sender.
    pub open spec fn sent_by(&self, uid: Seq<char>) -> bool {
        self.sender() is Some && self.sender()->0.id is Some && self.sender()->0.id->0@ == uid
    }

    /// Whether the message names the user `uid` as its sender.
    pub fn is_sent_by(&self, uid: &str) -> (r: bool)
        ensures
            r == self.sent_by(uid@),
    {
        match self.sender_id() {
            Some(id) => str_eq(id, uid),
            None => false,
        }
    }

    /// The name of the sender, `System` when the message names none.
    pub fn sender_name(&self) -> (r: String)
        ensures
            r@ == self.sender_name_spec(),
    {
        match &self.from {
            Some(f) => match &f.user {
                Some(u) => match &u.display_name {
                    Some(n) => n.clone(),
                    None => String::from_str("System"),
                },
                None => String::from_str("System"),
            },
            None => String::from_str("System"),
        }
    }

    /// The text of the message without markup; empty when it has no content.
    pub fn content_text(&self) -> (r: String)
        ensures
            r@ == self.content_text_spec(),
    {
        match &self.body {
            Some(b) => match &b.content {
                Some(c) => strip_html(c.as_str()),
                None => String::new(),
            },
            None => String::new(),
        }
    }

    /// The id of the sender, if the message names one.
    pub fn sender_id(&self) -> (r: Option<&str>)
        ensures
            match r {
                Some(id) => self.sender() is Some && self.sender()->0.id is Some
                    && self.sender()->0.id->0@ == id@,
                None => !(self.sender() is Some && self.sender()->0.id is Some),
            },
    {
        match &self.from {
            Some(f) => match &f.user {
                Some(u) => match &u.id {
                    Some(id) => Some(id.as_str()),
                    None => None,
                },
                None => None,
            },
            None => None,
        }
    }

    /// Whether a user wrote the message.
    pub fn is_user_message(&self) -> (r: bool)
        ensures
            r == self.user_message(),
    {
        match &self.message_type {
            Some(t) => str_eq(t.as_str(), "message"),
            None => false,
        }
    }

    /// The attachments that refer to a file, in order.
    pub fn file_attachments(&self) -> (r: Vec<&ChatMessageAttachment>)
        ensures
            r@.len() == file_attachments_spec(self.attachments@).len(),
            forall|i: int| 0 <= i < r@.len() ==> *(#[trigger] r@[i]) == file_attachments_spec(
                self.attachments@,
            )[i],
    {
        let mut out: Vec<&ChatMessageAttachment> = Vec::new();
        let mut i: usize = 0;
        assert(self.attachments@.take(0) =~= Seq::<ChatMessageAttachment>::empty());
        while i < self.attachments.len()
            invariant
                i <= self.attachments.len(),
                out@.len() == file_attachments_spec(self.attachments@.take(i as int)).len(),
                forall|j: int| 0 <= j < out@.len() ==> *(#[trigger] out@[j])
                    == file_attachments_spec(self.attachments@.take(i as int))[j],
            decreases self.attachments.len() - i,
        {
            let a = &self.attachments[i];
            proof {
                assert(self.attachments@.take(i + 1).drop_last() =~= self.attachments@.take(
                    i as int,
                ));
                assert(self.attachments@.take(i + 1).last() == *a);
            }
            let file = match &a.content_type {
                Some(t) => str_eq(t.as_str(), "reference"),
                None => false,
            };
            if file {
                out.push(a);
            }
            i += 1;
        }
        assert(self.attachments@.take(i as int) =~= self.attachments@);
        out
    }
}

/// The attachments of a list that refer to a file, in order.
pub open spec fn file_attachments_spec(s: Seq<ChatMessageAttachment>) -> Seq<ChatMessageAttachment>
    decreases s.len(),
{
    if s.len() == 0 {
        Seq::<ChatMessageAttachment>::empty()
    } else if is_file_attachment(s.last()) {
        file_attachments_spec(s.drop_last()).push(s.last())
    } else {
        file_attachments_spec(s.drop_last())
    }
}

/// Whether an attachment refers to a file.
pub open spec fn is_file_attachment(a: ChatMessageAttachment) -> bool {
    a.content_type is Some && a.content_type->0@ == "reference"@
}

/// The text outside the tags of `s`. A `<` opens a tag and a `>` closes it;
/// neither is kept, nor anything between them. `in_tag` says whether the text
/// starts inside a tag.
pub open spec fn strip_tags_spec(s: Seq<char>, in_tag: bool) -> Seq<char>
    decreases s.len(),
{
    if s.len() == 0 {
        Seq::<char>::empty()
    } else if s[0] == '<' {
        strip_tags_spec(s.skip(1), true)
    } else if s[0] == '>' {
        strip_tags_spec(s.skip(1), false)
    } else if !in_tag {
        seq![s[0]] + strip_tags_spec(s.skip(1), in_tag)
    } else {
        strip_tags_spec(s.skip(1), in_tag)
    }
}

/// The text of a piece of markup: its tags removed, its entities decoded, and
/// the white space at both ends cut off.
pub open spec fn strip_html_spec(s: Seq<char>) -> Seq<char> {
    trim_spec(decode_entities_spec(strip_tags_spec(s, false)))
}

/// The characters outside the tags of `v`.
pub fn strip_tags(v: &Vec<char>) -> (r: Vec<char>)
    ensures
        r@ == strip_tags_spec(v@, false),
{
    let mut out: Vec<char> = Vec::new();
    let mut in_tag: bool = false;
    let mut i: usize = 0;
    assert(v@.skip(0) =~= v@);
    while i < v.len()
        invariant
            i <= v.len(),
            out@ + strip_tags_spec(v@.skip(i as int), in_tag) == strip_tags_spec(v@, false),
        decreases v.len() - i,
    {
        let c = v[i];
        let ghost before = out@;
        let ghost tail = v@.skip(i as int);
        let ghost was = in_tag;
        assert(tail[0] == c);
        assert(tail.skip(1) =~= v@.skip(i + 1));
        if c == '<' {
            in_tag = true;
        } else if c == '>' {
            in_tag = false;
        } else if !in_tag {
            out.push(c);
        }
        assert(out@ + strip_tags_spec(v@.skip(i + 1), in_tag) =~= before + strip_tags_spec(
            tail,
            was,
        ));
        i += 1;
    }
    assert(out@ + Seq::<char>::empty() =~= out@);
    out
}

/// The characters of the text of a piece of markup.
pub fn strip_html_chars(v: &Vec<char>) -> (r: Vec<char>)
    ensures
        r@ == strip_html_spec(v@),
{
    let bare = strip_tags(v);
    let decoded = decode_entities(&bare);
    trim(&decoded)
}

/// The text of a piece of markup.
pub fn strip_html(input: &str) -> (r: String)
    ensures
        r@ == strip_html_spec(input@),
{
    let v = chars_of(input);
    let cut = strip_html_chars(&v);
    string_of(&cut)
}

/// The emoji of a reaction; a reaction that has none stands for itself.
pub open spec fn reaction_emoji_spec(t: Seq<char>) -> Seq<char> {
    if t == "like"@ {
        "\u{1F44D}"@
    } else if t == "heart"@ {
        "\u{2764}\u{FE0F}"@
    } else if t == "laugh"@ {
        "\u{1F602}"@
    } else if t == "surprised"@ {
        "\u{1F62E}"@
    } else if t == "sad"@ {
        "\u{1F622}"@
    } else if t == "angry"@ {
        "\u{1F621}"@
    } else {
        t
    }
}

/// The emoji of a reaction.
pub fn reaction_emoji(reaction_type: &str) -> (r: String)
    ensures
        r@ == reaction_emoji_spec(reaction_type@),
{
    if str_eq(reaction_type, "like") {
        String::from_str("\u{1F44D}")
    } else if str_eq(reaction_type, "heart") {
        String::from_str("\u{2764}\u{FE0F}")
    } else if str_eq(reaction_type, "laugh") {
        String::from_str("\u{1F602}")
    } else if str_eq(reaction_type, "surprised") {
        String::from_str("\u{1F62E}")
    } else if str_eq(reaction_type, "sad") {
        String::from_str("\u{1F622}")
    } else if str_eq(reaction_type, "angry") {
        String::from_str("\u{1F621}")
    } else {
        String::from_str(reaction_type)
    }
}

/// The icon and the label of an availability.
pub open spec fn presence_indicator_spec(a: Seq<char>) -> (Seq<char>, Seq<char>) {
    if a == "Available"@ {
        ("\u{1F7E2}"@, "Available"@)
    } else if a == "Busy"@ {
        ("\u{1F534}"@, "Busy"@)
    } else if a == "DoNotDisturb"@ {
        ("\u{26D4}"@, "Do Not Disturb"@)
    } else if a == "Away"@ {
        ("\u{1F7E1}"@, "Away"@)
    } else if a == "BeRightBack"@ {
        ("\u{1F7E1}"@, "Be Right Back"@)
    } else if a == "Offline"@ {
        ("\u{26AB}"@, "Offline"@)
    } else {
        ("\u{26AA}"@, "Unknown"@)
    }
}

/// The icon and the label of an availability; an availability that is not
/// known shows as `Unknown`.
pub fn presence_indicator(availability: &str) -> (r: (&'static str, &'static str))
    ensures
        r.0@ == presence_indicator_spec(availability@).0,
        r.1@ == presence_indicator_spec(availability@).1,
{
    if str_eq(availability, "Available") {
        ("\u{1F7E2}", "Available")
    } else if str_eq(availability, "Busy") {
        ("\u{1F534}", "Busy")
    } else if str_eq(availability, "DoNotDisturb") {
        ("\u{26D4}", "Do Not Disturb")
    } else if str_eq(availability, "Away") {
        ("\u{1F7E1}", "Away")
    } else if str_eq(availability, "BeRightBack") {
        ("\u{1F7E1}", "Be Right Back")
    } else if str_eq(availability, "Offline") {
        ("\u{26AB}", "Offline")
    } else {
        ("\u{26AA}", "Unknown")
    }
}

impl SearchHit {
    /// The name of the sender, `Unknown` when the hit names none.
    pub fn sender_name(&self) -> (r: String)
        ensures
            r@ == match self.resource {
                Some(
                    SearchChatMessage {
                        from: Some(
                            SearchFrom { email_address: Some(SearchEmailAddress { name: Some(n), .. }) },
                        ),
                        ..
                    },
                ) => n@,
                _ => "Unknown"@,
            },
    {
        match &self.resource {
            Some(res) => match &res.from {
                Some(f) => match &f.email_address {
                    Some(e) => match &e.name {
                        Some(n) => n.clone(),
                        None => String::from_str("Unknown"),
                    },
                    None => String::from_str("Unknown"),
                },
                None => String::from_str("Unknown"),
            },
            None => String::from_str("Unknown"),
        }
    }

    /// The summary of the hit without markup; empty when it has none.
    pub fn summary_text(&self) -> (r: String)
        ensures
            r@ == match self.summary {
                Some(s) => strip_html_spec(s@),
                None => Seq::<char>::empty(),
            },
    {
        match &self.summary {
            Some(s) => strip_html(s.as_str()),
            None => String::new(),
        }
    }

    /// The chat that the hit belongs to, if it names one.
    pub fn chat_id(&self) -> (r: Option<&str>)
        ensures
            match r {
                Some(id) => self.resource is Some && self.resource->0.chat_id is Some
                    && self.resource->0.chat_id->0@ == id@,
                None => !(self.resource is Some && self.resource->0.chat_id is Some),
            },
    {
        match &self.resource {
            Some(res) => match &res.chat_id {
                Some(id) => Some(id.as_str()),
                None => None,
            },
            None => None,
        }
    }
}

/// One line of a reaction summary: a reaction and how often it was given.
pub struct ReactionCount {
    pub kind: Seq<char>,
    pub count: nat,
}

/// The position of the line of a reaction in a summary.
pub open spec fn count_position(t: Seq<ReactionCount>, kind: Seq<char>) -> Option<int>
    decreases t.len(),
{
    if t.len() == 0 {
        None
    } else {
        match count_position(t.drop_last(), kind) {
            Some(j) => Some(j),
            None => if t.last().kind == kind {
                Some(t.len() - 1)
            } else {
                None
            },
        }
    }
}

/// How often each reaction was given, in the order in which the reactions
/// first occur.
pub open spec fn tally(reactions: Seq<ChatMessageReaction>) -> Seq<ReactionCount>
    decreases reactions.len(),
{
    if reactions.len() == 0 {
        Seq::<ReactionCount>::empty()
    } else {
        let t = tally(reactions.drop_last());
        let kind = reactions.last().reaction_type@;
        match count_position(t, kind) {
            Some(j) => t.update(j, ReactionCount { kind, count: t[j].count + 1 }),
            None => t.push(ReactionCount { kind, count: 1 }),
        }
    }
}

/// A summary ordered by falling count with one more line, placed behind every
/// line whose count is no smaller.
pub open spec fn insert_by_count(sorted: Seq<ReactionCount>, e: ReactionCount) -> Seq<
    ReactionCount,
>
    decreases sorted.len(),
{
    if sorted.len() == 0 {
        seq![e]
    } else if sorted.last().count >= e.count {
        sorted.push(e)
    } else {
        insert_by_count(sorted.drop_last(), e).push(sorted.last())
    }
}

/// The lines of a summary ordered by falling count; lines with equal counts
/// keep their order.
pub open spec fn sort_by_count(t: Seq<ReactionCount>) -> Seq<ReactionCount>
    decreases t.len(),
{
    if t.len() == 0 {
        Seq::<ReactionCount>::empty()
    } else {
        insert_by_count(sort_by_count(t.drop_last()), t.last())
    }
}

/// The summary of the reactions to a message.
pub open spec fn reactions_summary_spec(reactions: Option<Vec<ChatMessageReaction>>) -> Seq<
    ReactionCount,
> {
    match reactions {
        Some(r) => sort_by_count(tally(r@)),
        None => Seq::<ReactionCount>::empty(),
    }
}

/// A summary as the code holds it.
pub open spec fn counts_view(v: Seq<(Vec<char>, usize)>) -> Seq<ReactionCount> {
    Seq::new(v.len(), |i: int| ReactionCount { kind: v[i].0@, count: v[i].1 as nat })
}

proof fn lemma_count_position_stable(t: Seq<ReactionCount>, kind: Seq<char>, k: int, j: int)
    requires
        0 <= k <= t.len(),
        count_position(t.take(k), kind) == Some(j),
    ensures
        count_position(t, kind) == Some(j),
    decreases t.len() - k,
{
    if k == t.len() {
        assert(t.take(k) =~= t);
    } else {
        assert(t.take(k + 1).drop_last() =~= t.take(k));
        lemma_count_position_stable(t, kind, k + 1, j);
    }
}

fn find_count(v: &Vec<(Vec<char>, usize)>, kind: &Vec<char>) -> (r: Option<usize>)
    ensures
        match r {
            Some(j) => count_position(counts_view(v@), kind@) == Some(j as int) && j < v.len(),
            None => count_position(counts_view(v@), kind@) is None,
        },
{
    let ghost t = counts_view(v@);
    let mut i: usize = 0;
    assert(t.take(0) =~= Seq::<ReactionCount>::empty());
    while i < v.len()
        invariant
            i <= v.len(),
            t == counts_view(v@),
            count_position(t.take(i as int), kind@) is None,
        decreases v.len() - i,
    {
        proof {
            assert(t.take(i + 1).drop_last() =~= t.take(i as int));
            assert(t.take(i + 1).last() == t[i as int]);
        }
        if crate::text::chars_eq(&v[i].0, kind) {
            proof {
                lemma_count_position_stable(t, kind@, i + 1, i as int);
            }
            return Some(i);
        }
        i += 1;
    }
    assert(t.take(i as int) =~= t);
    None
}

proof fn lemma_insert_by_count_position(s: Seq<ReactionCount>, e: ReactionCount, i: int)
    requires
        0 <= i <= s.len(),
        forall|j: int| i <= j < s.len() ==> (#[trigger] s[j]).count < e.count,
        i == 0 || s[i - 1].count >= e.count,
    ensures
        insert_by_count(s, e) == s.insert(i, e),
    decreases s.len() - i,
{
    if s.len() == 0 {
        assert(s.insert(0, e) =~= seq![e]);
    } else if i == s.len() {
        assert(s.insert(i, e) =~= s.push(e));
    } else {
        let init = s.drop_last();
        assert(s[s.len() - 1].count < e.count);
        assert forall|j: int| i <= j < init.len() implies (#[trigger] init[j]).count < e.count by {
            assert(init[j] == s[j]);
        }
        lemma_insert_by_count_position(init, e, i);
        assert(init.insert(i, e).push(s.last()) =~= s.insert(i, e));
    }
}

/// Whether no line of a summary stands before a line with a greater count.
pub open spec fn counts_fall(t: Seq<ReactionCount>) -> bool {
    forall|i: int, j: int| 0 <= i < j < t.len() ==> (#[trigger] t[i]).count >= (#[trigger] t[j]).count
}

/// `insert_by_count` adds the line at some position, behind every line whose
/// count is no smaller and before every line whose count is smaller, and
/// moves nothing else.
pub proof fn lemma_insert_by_count_is_insert(s: Seq<ReactionCount>, e: ReactionCount) -> (i: int)
    ensures
        0 <= i <= s.len(),
        insert_by_count(s, e) == s.insert(i, e),
        forall|j: int| i <= j < s.len() ==> (#[trigger] s[j]).count < e.count,
        i == 0 || s[i - 1].count >= e.count,
    decreases s.len(),
{
    if s.len() == 0 {
        assert(s.insert(0, e) =~= seq![e]);
        0
    } else if s.last().count >= e.count {
        assert(s.insert(s.len() as int, e) =~= s.push(e));
        s.len() as int
    } else {
        let init = s.drop_last();
        let i = lemma_insert_by_count_is_insert(init, e);
        assert(init.insert(i, e).push(s.last()) =~= s.insert(i, e));
        assert forall|j: int| i <= j < s.len() implies (#[trigger] s[j]).count < e.count by {
            if j < init.len() {
                assert(init[j] == s[j]);
            }
        }
        if i > 0 {
            assert(init[i - 1] == s[i - 1]);
        }
        i
    }
}

/// A summary is ordered by falling count and has one line for each line of
/// the tally.
pub proof fn lemma_sort_by_count_falls(t: Seq<ReactionCount>)
    ensures
        counts_fall(sort_by_count(t)),
        sort_by_count(t).len() == t.len(),
        sort_by_count(t).to_multiset() == t.to_multiset(),
    decreases t.len(),
{
    if t.len() > 0 {
        let init = t.drop_last();
        lemma_sort_by_count_falls(init);
        let s = sort_by_count(init);
        let e = t.last();
        let i = lemma_insert_by_count_is_insert(s, e);
        let r = s.insert(i, e);
        assert forall|a: int, b: int| 0 <= a < b < r.len() implies (#[trigger] r[a]).count
            >= (#[trigger] r[b]).count by {
            if b < i {
                assert(r[a] == s[a] && r[b] == s[b]);
            } else if b == i {
                assert(r[a] == s[a]);
                if a < i - 1 {
                    assert(s[a].count >= s[i - 1].count);
                }
            } else if a == i {
                assert(r[b] == s[b - 1]);
            } else if a < i {
                assert(r[a] == s[a] && r[b] == s[b - 1]);
            } else {
                assert(r[a] == s[a - 1] && r[b] == s[b - 1]);
            }
        }
        vstd::seq_lib::to_multiset_insert(s, i, e);
        vstd::seq_lib::to_multiset_build(init, e);
        assert(init.push(e) =~= t);
    } else {
        assert(sort_by_count(t) =~= t);
    }
}

impl Message {
    /// The reactions to the message with how often each was given, the most
    /// frequent first. Each reaction is shown by its emoji.
    pub fn reactions_summary(&self) -> (r: Vec<(String, usize)>)
        ensures
            r@.len() == reactions_summary_spec(self.reactions).len(),
            forall|i: int|
                0 <= i < r@.len() ==> {
                    &&& (#[trigger] r@[i]).0@ == reaction_emoji_spec(
                        reactions_summary_spec(self.reactions)[i].kind,
                    )
                    &&& r@[i].1 == reactions_summary_spec(self.reactions)[i].count
                },
    {
        let mut counts: Vec<(Vec<char>, usize)> = Vec::new();
        match &self.reactions {
            Some(reactions) => {
                let mut i: usize = 0;
                assert(reactions@.take(0) =~= Seq::<ChatMessageReaction>::empty());
                assert(counts_view(counts@) =~= Seq::<ReactionCount>::empty());
                while i < reactions.len()
                    invariant
                        i <= reactions.len(),
                        counts_view(counts@) == tally(reactions@.take(i as int)),
                        forall|j: int| 0 <= j < counts@.len() ==> (#[trigger] counts@[j]).1 <= i,
                    decreases reactions.len() - i,
                {
                    proof {
                        assert(reactions@.take(i + 1).drop_last() =~= reactions@.take(i as int));
                        assert(reactions@.take(i + 1).last() == reactions@[i as int]);
                    }
                    let kind = chars_of(reactions[i].reaction_type.as_str());
                    let ghost before = counts@;
                    match find_count(&counts, &kind) {
                        Some(j) => {
                            let n: usize = counts[j].1;
                            counts.set(j, (kind, n + 1));
                            assert(counts_view(counts@) =~= counts_view(before).update(
                                j as int,
                                ReactionCount { kind: kind@, count: (n + 1) as nat },
                            ));
                        },
                        None => {
                            counts.push((kind, 1));
                            assert(counts_view(counts@) =~= counts_view(before).push(
                                ReactionCount { kind: kind@, count: 1 },
                            ));
                        },
                    }
                    i += 1;
                }
                assert(reactions@.take(i as int) =~= reactions@);
            },
            None => {
                assert(counts_view(counts@) =~= Seq::<ReactionCount>::empty());
                return Vec::new();
            },
        }
        let ghost all = counts_view(counts@);
        let mut sorted: Vec<(Vec<char>, usize)> = Vec::new();
        let mut k: usize = 0;
        assert(all.take(0) =~= Seq::<ReactionCount>::empty());
        assert(counts_view(sorted@) =~= Seq::<ReactionCount>::empty());
        while k < counts.len()
            invariant
                k <= counts.len(),
                all == counts_view(counts@),
                counts_view(sorted@) == sort_by_count(all.take(k as int)),
            decreases counts.len() - k,
        {
            proof {
                assert(all.take(k + 1).drop_last() =~= all.take(k as int));
                assert(all.take(k + 1).last() == all[k as int]);
            }
            let kind = counts[k].0.clone();
            let n: usize = counts[k].1;
            assert(kind@ == counts@[k as int].0@);
            let ghost e = ReactionCount { kind: kind@, count: n as nat };
            let ghost before = sorted@;
            let mut at: usize = sorted.len();
            while at > 0 && sorted[at - 1].1 < n
                invariant
                    at <= sorted.len(),
                    sorted@ == before,
                    forall|j: int|
                        at <= j < sorted@.len() ==> (#[trigger] counts_view(sorted@)[j]).count
                            < e.count,
                    e.count == n,
                decreases at,
            {
                at -= 1;
            }
            proof {
                lemma_insert_by_count_position(counts_view(before), e, at as int);
            }
            sorted.insert(at, (kind, n));
            assert(counts_view(sorted@) =~= counts_view(before).insert(at as int, e));
            k += 1;
        }
        assert(all.take(k as int) =~= all);
        let mut out: Vec<(String, usize)> = Vec::new();
        let mut m: usize = 0;
        while m < sorted.len()
            invariant
                m <= sorted.len(),
                out@.len() == m,
                forall|i: int|
                    0 <= i < m ==> {
                        &&& (#[trigger] out@[i]).0@ == reaction_emoji_spec(sorted@[i].0@)
                        &&& out@[i].1 == sorted@[i].1
                    },
            decreases sorted.len() - m,
        {
            let name = string_of(&sorted[m].0);
            let emoji = reaction_emoji(name.as_str());
            out.push((emoji, sorted[m].1));
            m += 1;
        }
        assert forall|i: int| 0 <= i < out@.len() implies {
            &&& (#[trigger] out@[i]).0@ == reaction_emoji_spec(
                reactions_summary_spec(self.reactions)[i].kind,
            )
            &&& out@[i].1 == reactions_summary_spec(self.reactions)[i].count
        } by {
            assert(counts_view(sorted@)[i].kind == sorted@[i].0@);
        }
        out
    }

    /// The local time of day at which the message was created, as two digits
    /// of hours, a colon and two digits of minutes; empty when the message
    /// has no creation time or one that cannot be read.
    pub fn formatted_time(&self) -> (r: String)
        ensures
            r@.len() == if self.created_date_time is Some && rfc3339_spec(
                self.created_date_time->0@,
            ) {
                5nat
            } else {
                0nat
            },
    {
        match &self.created_date_time {
            Some(ts) => match local_time(ts.as_str(), "%H:%M") {
                Some(t) => t,
                None => String::new(),
            },
            None => String::new(),
        }
    }
}

/// Whether a text is a date and time that `chrono::DateTime::parse_from_rfc3339`
/// reads.
pub uninterp spec fn rfc3339_spec(timestamp: Seq<char>) -> bool;

/// Renders an RFC 3339 timestamp in the time zone of the machine, through
/// `chrono::DateTime::parse_from_rfc3339`, `with_timezone(&chrono::Local)` and
/// `format`. Whether the timestamp can be read depends on its text alone. The
/// rendered text depends on the machine's time zone; only its length is
/// claimed, which the patterns fix: month, day, hour and minute are each
/// written with two digits. The pattern is one of the two that the library
/// uses; `format` panics on a malformed one.
#[verifier::external_body]
fn local_time(timestamp: &str, pattern: &str) -> (r: Option<String>)
    requires
        pattern@ == "%H:%M"@ || pattern@ == "%m/%d %H:%M"@,
    ensures
        r is Some <==> rfc3339_spec(timestamp@),
        r is Some ==> r->0@.len() == if pattern@ == "%H:%M"@ {
            5nat
        } else {
            11nat
        },
{
    match chrono::DateTime::parse_from_rfc3339(timestamp) {
        Ok(t) => Some(t.with_timezone(&chrono::Local).format(pattern).to_string()),
        Err(_) => None,
    }
}

impl SearchHit {
    /// The creation time of the hit, if it has one.
    pub open spec fn created(&self) -> Option<String> {
        match self.resource {
            Some(res) => res.created_date_time,
            None => None,
        }
    }

    /// The local day and time of day at which the hit was created, as month,
    /// day, hours and minutes of two digits each; empty when the hit has no
    /// creation time or one that cannot be read.
    pub fn formatted_time(&self) -> (r: String)
        ensures
            r@.len() == if self.created() is Some && rfc3339_spec(self.created()->0@) {
                11nat
            } else {
                0nat
            },
    {
        proof {
            reveal_strlit("%H:%M");
            reveal_strlit("%m/%d %H:%M");
            assert("%m/%d %H:%M"@.len() == 11);
            assert("%H:%M"@.len() == 5);
        }
        match &self.resource {
            Some(res) => match &res.created_date_time {
                Some(ts) => match local_time(ts.as_str(), "%m/%d %H:%M") {
                    Some(t) => t,
                    None => String::new(),
                },
                None => String::new(),
            },
            None => String::new(),
        }
    }
}

} // verus!

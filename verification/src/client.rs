//! What the client knows of the remote service beyond single requests: where
//! the messages of a chat are found, how a page of results is put in order,
//! and how the pages of an incremental change-set are followed to its end.
use vstd::prelude::*;
use vstd::string::*;
use crate::secret::erase_text;
use crate::models::{DeltaResponse, Message, PagedResponse};
use crate::text::{push_str_chars, string_of};

verus! {

/// The largest number of users whose availability one request may ask for.
pub const PRESENCE_BATCH: usize = 650;

/// The address of the newest messages of a chat.
pub open spec fn messages_url_spec(chat_id: Seq<char>) -> Seq<char> {
    "https://graph.microsoft.com/v1.0/me/chats/"@ + chat_id
        + "/messages?$top=50&$orderby=createdDateTime%20desc"@
}

/// The address of the newest messages of a chat.
pub fn messages_url(chat_id: &str) -> (r: String)
    ensures
        r@ == messages_url_spec(chat_id@),
{
    let mut out: Vec<char> = Vec::new();
    push_str_chars(&mut out, "https://graph.microsoft.com/v1.0/me/chats/");
    push_str_chars(&mut out, chat_id);
    push_str_chars(&mut out, "/messages?$top=50&$orderby=createdDateTime%20desc");
    assert(out@ =~= messages_url_spec(chat_id@));
    string_of(&out)
}

/// The address at which an incremental synchronisation of a chat starts: the
/// token of the last synchronisation, or the first change-set of the chat
/// when there was none.
pub open spec fn delta_url_spec(chat_id: Seq<char>, delta_link: Option<Seq<char>>) -> Seq<char> {
    match delta_link {
        Some(link) => link,
        None => "https://graph.microsoft.com/v1.0/me/chats/"@ + chat_id + "/messages/delta"@,
    }
}

/// The address at which an incremental synchronisation of a chat starts.
pub fn delta_url(chat_id: &str, delta_link: Option<&str>) -> (r: String)
    ensures
        r@ == delta_url_spec(
            chat_id@,
            match delta_link {
                Some(l) => Some(l@),
                None => None,
            },
        ),
{
    match delta_link {
        Some(link) => String::from_str(link),
        None => {
            let mut out: Vec<char> = Vec::new();
            push_str_chars(&mut out, "https://graph.microsoft.com/v1.0/me/chats/");
            push_str_chars(&mut out, chat_id);
            push_str_chars(&mut out, "/messages/delta");
            assert(out@ =~= delta_url_spec(chat_id@, None));
            string_of(&out)
        },
    }
}

/// The value of the authorisation header for an access token.
pub fn bearer(access_token: &str) -> (r: String)
    ensures
        r@ == "Bearer "@ + access_token@,
{
    let mut out: Vec<char> = Vec::new();
    push_str_chars(&mut out, "Bearer ");
    push_str_chars(&mut out, access_token);
    assert(out@ =~= "Bearer "@ + access_token@);
    string_of(&out)
}

/// The messages in the opposite order.
pub fn reversed(v: Vec<Message>) -> (r: Vec<Message>)
    ensures
        r@ == v@.reverse(),
{
    let ghost all = v@;
    let mut rest = v;
    let mut out: Vec<Message> = Vec::new();
    while rest.len() > 0
        invariant
            rest@ == all.take(rest@.len() as int),
            rest@.len() <= all.len(),
            out@.len() == all.len() - rest@.len(),
            forall|j: int| 0 <= j < out@.len() ==> out@[j] == all[all.len() - 1 - j],
        decreases rest@.len(),
    {
        let ghost n = rest@.len();
        match rest.pop() {
            Some(m) => {
                assert(m == all[n - 1]);
                out.push(m);
                assert(rest@ =~= all.take(n - 1));
            },
            None => {},
        }
    }
    assert(out@ =~= all.reverse());
    out
}

/// The messages of a page, oldest first, with the cursor of the next older
/// page. The service sends the newest first.
pub fn oldest_first(page: PagedResponse<Message>) -> (r: (Vec<Message>, Option<String>))
    ensures
        r.0@ == page.value@.reverse(),
        r.1 == page.next_link,
{
    let PagedResponse { value, next_link } = page;
    (reversed(value), next_link)
}

/// What follows a page of an incremental change-set.
#[derive(Debug)]
pub enum DeltaStep {
    /// Another page, at the given address.
    Next(String),
    /// The end of the change-set, with the token of the next synchronisation
    /// if the service sent one.
    Done(Option<String>),
}

/// Adds a page of an incremental change-set to what was collected and says
/// what follows: a page with a cursor is followed by the page at that cursor,
/// and only a page without one ends the change-set.
pub fn take_delta_page(collected: &mut Vec<Message>, page: DeltaResponse<Message>) -> (r:
    DeltaStep)
    ensures
        final(collected)@ == old(collected)@ + page.value@,
        r == match page.next_link {
            Some(next) => DeltaStep::Next(next),
            None => DeltaStep::Done(page.delta_link),
        },
{
    let DeltaResponse { value, next_link, delta_link } = page;
    let mut value = value;
    collected.append(&mut value);
    match next_link {
        Some(next) => DeltaStep::Next(next),
        None => DeltaStep::Done(delta_link),
    }
}

#[verifier::external_type_specification]
#[verifier::external_body]
pub struct ExTransport(reqwest::Client);

/// Makes another handle to the same connection pool, through `Clone` on
/// `reqwest::Client`, which copies a reference-counted pointer. Nothing is
/// claimed of the handle, which verified code never looks into.
#[verifier::external_body]
fn share_transport(client: &reqwest::Client) -> (r: reqwest::Client) {
    client.clone()
}

/// A transport handle with the access token that authorises its requests.
pub struct GraphClient {
    client: reqwest::Client,
    access_token: String,
}

impl GraphClient {
    /// The access token that the client sends.
    pub closed spec fn token_view(&self) -> Seq<char> {
        self.access_token@
    }

    /// The transport that the client sends over.
    pub closed spec fn transport_view(&self) -> reqwest::Client {
        self.client
    }

    /// A client that sends `access_token` over the given transport.
    pub fn new(client: reqwest::Client, access_token: String) -> (r: Self)
        ensures
            r.token_view() == access_token@,
            r.transport_view() == client,
    {
        GraphClient { client, access_token }
    }

    /// An independent client for a background task: it shares the connection
    /// pool and holds its own copy of the access token as it is now, so that a
    /// later change of the token never reaches it.
    pub fn clone_for_background(&self) -> (r: Self)
        ensures
            r.token_view() == self.token_view(),
    {
        GraphClient {
            client: share_transport(&self.client),
            access_token: self.access_token.clone(),
        }
    }

    /// Replaces the access token; the bytes of the old one are overwritten
    /// with zeros first.
    pub fn set_token(&mut self, token: String)
        ensures
            final(self).token_view() == token@,
            final(self).transport_view() == old(self).transport_view(),
    {
        erase_text(&mut self.access_token);
        self.access_token = token;
    }

    /// The access token that the client sends.
    pub fn access_token(&self) -> (r: &str)
        ensures
            r@ == self.token_view(),
    {
        self.access_token.as_str()
    }

    /// The transport that the client sends over: the one it was made with.
    pub fn transport(&self) -> (r: &reqwest::Client)
        ensures
            *r == self.transport_view(),
    {
        &self.client
    }

    /// Erases the access token.
    pub fn release(&mut self)
        ensures
            final(self).token_view().len() == 0,
            final(self).transport_view() == old(self).transport_view(),
    {
        erase_text(&mut self.access_token);
    }
}

} // verus!

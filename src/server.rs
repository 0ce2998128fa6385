use vstd::prelude::*;

use crate::action::{actions_from_flat, paired_actions, texts_view};
use crate::hints::{decode_hints, HintValue, Hints};
use crate::id::Id;
use crate::notification::{requested_timeout, Details, DetailsView, Message, Reason, Timeout};
use crate::text::{bold, bold_escape, escape, escape_markup, non_empty, owned_non_empty};

verus! {

/// What the server tells about itself.
#[derive(Clone, Debug)]
pub struct ServerInfo {
    /// The product name of the server.
    pub name: String,
    /// The vendor name.
    pub vendor: String,
    /// The server's version number.
    pub version: String,
    /// The version of the notification protocol that the server follows.
    pub spec_version: String,
}

impl ServerInfo {
    pub fn new(name: &str, vendor: &str, version: &str, spec_version: &str) -> (r: ServerInfo)
        ensures
            r.name@ == name@,
            r.vendor@ == vendor@,
            r.version@ == version@,
            r.spec_version@ == spec_version@,
    {
        ServerInfo {
            name: String::from_str(name),
            vendor: String::from_str(vendor),
            version: String::from_str(version),
            spec_version: String::from_str(spec_version),
        }
    }
}

/// A close that the bus is told of with a `NotificationClosed` signal.
#[derive(Clone, Copy, Debug, PartialEq, Eq, Structural)]
pub struct Closed {
    pub id: u32,
    pub reason: Reason,
}

/// The protocol features that the server supports.
pub open spec fn capabilities() -> Seq<Seq<char>> {
    seq![
        "action-icons"@,
        "actions"@,
        "body"@,
        "body-hyperlinks"@,
        "body-markup"@,
        "icon-static"@,
        "inline-reply"@,
    ]
}

/// Whether a request with `replaces_id` replaces a notification, once `issued`
/// ids have been handed out: the id is nonzero and was issued.
pub open spec fn is_replace(issued: nat, replaces_id: u32) -> bool {
    replaces_id != 0 && replaces_id <= issued
}

/// The id that a request gets: the one it replaces, else a fresh one.
pub open spec fn notify_id(issued: nat, replaces_id: u32) -> nat {
    if is_replace(issued, replaces_id) {
        replaces_id as nat
    } else {
        issued + 1
    }
}

/// The number of ids issued after a request.
pub open spec fn issued_after(issued: nat, replaces_id: u32) -> nat {
    if is_replace(issued, replaces_id) {
        issued
    } else {
        issued + 1
    }
}

/// The details that a request describes.
pub open spec fn requested_details(
    id: u32,
    app_name: Seq<char>,
    app_icon: Seq<char>,
    summary: Seq<char>,
    body: Seq<char>,
    actions: Seq<Seq<char>>,
    hints: Hints,
    expire_timeout: i32,
) -> DetailsView {
    DetailsView {
        id,
        app_name: non_empty(app_name),
        app_icon: non_empty(app_icon),
        summary: bold(escape_markup(summary)),
        body: match non_empty(body) {
            Some(b) => Some(escape_markup(b)),
            None => None,
        },
        actions: paired_actions(actions, hints.action_icons),
        hints,
        expire_timeout: requested_timeout(expire_timeout),
    }
}

/// The details that a `New` or `Replace` message carries.
pub open spec fn message_details(m: Message) -> Details
    recommends
        !(m is Close),
{
    match m {
        Message::New(d) => d,
        Message::Replace(d) => d,
        Message::Close(_) => arbitrary(),
    }
}

/// The ids of `n` requests in a row that replace nothing, from `issued` on.
pub open spec fn fresh_ids(issued: nat, n: nat) -> Seq<nat>
    decreases n,
{
    if n == 0 {
        Seq::empty()
    } else {
        seq![notify_id(issued, 0)] + fresh_ids(issued_after(issued, 0), (n - 1) as nat)
    }
}

/// The bus side of the service: it allocates ids and turns requests into
/// lifecycle messages. It never touches the notifications themselves.
pub struct Server {
    info: ServerInfo,
    ids: Id,
}

impl Server {
    /// How many ids have been issued.
    pub closed spec fn issued(&self) -> nat {
        self.ids@
    }

    /// What the server tells about itself.
    pub closed spec fn server_info(&self) -> ServerInfo {
        self.info
    }

    pub fn new(info: ServerInfo) -> (r: Server)
        ensures
            r.issued() == 0,
            r.server_info() == info,
    {
        Server { info, ids: Id::new() }
    }

    /// The last id issued, or `0`.
    pub fn current_id(&self) -> (r: u32)
        ensures
            r as nat == self.issued(),
    {
        self.ids.current_glob()
    }

    /// The protocol features supported.
    pub fn get_capabilities(&self) -> (r: Vec<&'static str>)
        ensures
            texts_view(r@) == capabilities(),
    {
        let r = vec![
            "action-icons",
            "actions",
            "body",
            "body-hyperlinks",
            "body-markup",
            "icon-static",
            "inline-reply",
        ];
        assert(texts_view(r@) =~= capabilities());
        r
    }

    /// Takes a notification request: returns its id and the message that
    /// announces it.
    ///
    /// The id is `replaces_id` where that id is nonzero and was issued, else a
    /// fresh one. The message is a `Replace` exactly when the id is
    /// `replaces_id`, else a `New`.
    pub fn notify(
        &mut self,
        app_name: &str,
        replaces_id: u32,
        app_icon: &str,
        summary: &str,
        body: &str,
        actions: Vec<&str>,
        hints: Vec<(String, HintValue)>,
        expire_timeout: i32,
    ) -> (r: (u32, Message))
        requires
            is_replace(old(self).issued(), replaces_id) || old(self).issued() < u32::MAX,
        ensures
            r.0 as nat == notify_id(old(self).issued(), replaces_id),
            final(self).issued() == issued_after(old(self).issued(), replaces_id),
            final(self).server_info() == old(self).server_info(),
            r.0 > 0,
            !(r.1 is Close),
            (r.1 is Replace) <==> r.0 == replaces_id,
            message_details(r.1)@ == requested_details(
                r.0,
                app_name@,
                app_icon@,
                summary@,
                body@,
                texts_view(actions@),
                decode_hints(hints@),
                expire_timeout,
            ),
    {
        let id = if replaces_id != 0 && replaces_id <= self.ids.current_glob() {
            replaces_id
        } else {
            self.ids.bump_glob()
        };
        let hints = Hints::from_entries(hints);
        let body = if body.unicode_len() == 0 {
            None
        } else {
            Some(escape(body))
        };
        let actions = actions_from_flat(&actions, hints.action_icons);
        let details = Details {
            id,
            app_name: owned_non_empty(app_name),
            app_icon: owned_non_empty(app_icon),
            summary: bold_escape(summary),
            body,
            actions,
            hints,
            expire_timeout: Timeout::from_request(expire_timeout),
        };
        if id != replaces_id {
            (id, Message::New(details))
        } else {
            (id, Message::Replace(details))
        }
    }

    /// Takes a `CloseNotification` request: returns the message that closes the
    /// notification and the `NotificationClosed` signal that is sent at once.
    pub fn close_notification(&self, id: u32) -> (r: (Message, Closed))
        ensures
            r.0 == Message::Close(id),
            r.1 == (Closed { id, reason: Reason::Closed }),
    {
        (Message::Close(id), Closed { id, reason: Reason::Closed })
    }

    /// Name, vendor, version and protocol version.
    pub fn get_server_information(&self) -> (r: (String, String, String, String))
        ensures
            r.0@ == self.server_info().name@,
            r.1@ == self.server_info().vendor@,
            r.2@ == self.server_info().version@,
            r.3@ == self.server_info().spec_version@,
    {
        (
            self.info.name.clone(),
            self.info.vendor.clone(),
            self.info.version.clone(),
            self.info.spec_version.clone(),
        )
    }
}

/// Requests that replace nothing get ids that strictly increase, one by one,
/// and so never repeat.
pub proof fn lemma_fresh_ids_increase(issued: nat, n: nat)
    ensures
        fresh_ids(issued, n).len() == n,
        forall|i: int| 0 <= i < n ==> #[trigger] fresh_ids(issued, n)[i] == issued + 1 + i,
        forall|i: int, j: int|
            0 <= i < j < n ==> fresh_ids(issued, n)[i] < fresh_ids(issued, n)[j],
    decreases n,
{
    if n > 0 {
        lemma_fresh_ids_increase(issued + 1, (n - 1) as nat);
        let s = fresh_ids(issued, n);
        let t = fresh_ids(issued + 1, (n - 1) as nat);
        assert(s == seq![issued + 1] + t);
        assert forall|i: int| 0 <= i < n implies #[trigger] s[i] == issued + 1 + i by {
            if i > 0 {
                assert(s[i] == t[i - 1]);
            }
        }
    }
}

/// A request that replaces an issued, nonzero id keeps that id, and so is
/// announced with `Replace`.
pub proof fn lemma_replace_keeps_id(issued: nat, x: u32)
    requires
        0 < x <= issued,
    ensures
        is_replace(issued, x),
        notify_id(issued, x) == x,
        issued_after(issued, x) == issued,
{
}

/// A request whose `replaces_id` is zero or beyond the next id gets a fresh id,
/// and so is announced with `New`.
pub proof fn lemma_unissued_gets_fresh_id(issued: nat, x: u32)
    requires
        x == 0 || x > issued + 1,
    ensures
        !is_replace(issued, x),
        notify_id(issued, x) == issued + 1,
        notify_id(issued, x) != x,
        issued_after(issued, x) == issued + 1,
{
}

} // verus!

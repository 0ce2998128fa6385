use vstd::prelude::*;

use crate::action::{Action, ActionView};
use crate::hints::Hints;

verus! {

/// How long a notification stays on screen.
#[derive(Clone, Copy, Debug, PartialEq, Eq, Structural)]
pub enum Timeout {
    /// The configured default duration.
    UseDefault,
    /// Until it is closed otherwise.
    Never,
    /// This many milliseconds.
    After(u64),
}

/// The timeout that a requested `expire_timeout` asks for: negative means the
/// default, zero means never, a positive value is in milliseconds.
pub open spec fn requested_timeout(expire_timeout: i32) -> Timeout {
    if expire_timeout < 0 {
        Timeout::UseDefault
    } else if expire_timeout == 0 {
        Timeout::Never
    } else {
        Timeout::After(expire_timeout as u64)
    }
}

impl Timeout {
    pub fn from_request(expire_timeout: i32) -> (r: Timeout)
        ensures
            r == requested_timeout(expire_timeout),
    {
        if expire_timeout < 0 {
            Timeout::UseDefault
        } else if expire_timeout == 0 {
            Timeout::Never
        } else {
            Timeout::After(expire_timeout as u64)
        }
    }

    /// The duration in milliseconds, with `default` standing in for the
    /// default; `None` where it never expires.
    pub fn millis(&self, default: u64) -> (r: Option<u64>)
        ensures
            r == timer_millis(*self, default),
    {
        match self {
            Timeout::UseDefault => Some(default),
            Timeout::Never => None,
            Timeout::After(ms) => Some(*ms),
        }
    }
}

/// The duration of a timeout in milliseconds, `default` standing in for the
/// default; `None` where it never expires.
pub open spec fn timer_millis(t: Timeout, default: u64) -> Option<u64> {
    match t {
        Timeout::UseDefault => Some(default),
        Timeout::Never => None,
        Timeout::After(ms) => Some(ms),
    }
}

/// A validated notification: what is shown and for how long.
///
/// The summary is always present (possibly empty) and is stored as markup;
/// empty application names, icons and bodies are absent.
#[derive(Clone, Debug)]
pub struct Details {
    pub id: u32,
    pub app_name: Option<String>,
    pub app_icon: Option<String>,
    pub summary: String,
    pub body: Option<String>,
    pub actions: Vec<Action>,
    pub hints: Hints,
    pub expire_timeout: Timeout,
}

/// What a notification's details hold.
pub struct DetailsView {
    pub id: u32,
    pub app_name: Option<Seq<char>>,
    pub app_icon: Option<Seq<char>>,
    pub summary: Seq<char>,
    pub body: Option<Seq<char>>,
    pub actions: Seq<ActionView>,
    pub hints: Hints,
    pub expire_timeout: Timeout,
}

impl View for Details {
    type V = DetailsView;

    open spec fn view(&self) -> DetailsView {
        DetailsView {
            id: self.id,
            app_name: crate::text::opt_view(self.app_name),
            app_icon: crate::text::opt_view(self.app_icon),
            summary: self.summary@,
            body: crate::text::opt_view(self.body),
            actions: crate::action::actions_view(self.actions@),
            hints: self.hints,
            expire_timeout: self.expire_timeout,
        }
    }
}

/// Where the picture of a notification can come from, in the order they are
/// tried: the image data hint, the image path hint, the application icon, the
/// icon data hint.
#[derive(Clone, Copy, Debug, PartialEq, Eq, Structural)]
pub enum ImageSource {
    ImageData,
    ImagePath,
    AppIcon,
    IconData,
}

/// The picture sources that details offer, in the order they are tried.
pub open spec fn image_sources_of(d: Details) -> Seq<ImageSource> {
    (if d.hints.image_data is Some {
        seq![ImageSource::ImageData]
    } else {
        seq![]
    }) + (if d.hints.image_path is Some {
        seq![ImageSource::ImagePath]
    } else {
        seq![]
    }) + (if d.app_icon is Some {
        seq![ImageSource::AppIcon]
    } else {
        seq![]
    }) + (if d.hints.icon_data is Some {
        seq![ImageSource::IconData]
    } else {
        seq![]
    })
}

impl Details {
    /// The first action with the key `"default"`, if any.
    pub fn default_action(&self) -> (r: Option<&Action>)
        ensures
            match r {
                Some(a) => exists|i: int|
                    0 <= i < self.actions.len() && self.actions@[i] == *a && a.key@ == "default"@
                        && forall|j: int| 0 <= j < i ==> self.actions@[j].key@ != "default"@,
                None => forall|j: int|
                    0 <= j < self.actions.len() ==> self.actions@[j].key@ != "default"@,
            },
    {
        let mut i: usize = 0;
        while i < self.actions.len()
            invariant
                i <= self.actions.len(),
                forall|j: int| 0 <= j < i ==> self.actions@[j].key@ != "default"@,
            decreases self.actions.len() - i,
        {
            if self.actions[i].is_default() {
                return Some(&self.actions[i]);
            }
            i = i + 1;
        }
        None
    }

    /// Whether some action asks for a text reply.
    pub fn wants_reply(&self) -> (r: bool)
        ensures
            r == exists|i: int|
                0 <= i < self.actions.len() && self.actions@[i].key@ == "inline-reply"@,
    {
        let mut i: usize = 0;
        while i < self.actions.len()
            invariant
                i <= self.actions.len(),
                forall|j: int| 0 <= j < i ==> self.actions@[j].key@ != "inline-reply"@,
            decreases self.actions.len() - i,
        {
            if self.actions[i].is_inline_reply() {
                return true;
            }
            i = i + 1;
        }
        false
    }

    /// The picture sources offered, in the order they are tried.
    pub fn image_sources(&self) -> (r: Vec<ImageSource>)
        ensures
            r@ == image_sources_of(*self),
    {
        let mut r: Vec<ImageSource> = Vec::new();
        if self.hints.image_data.is_some() {
            r.push(ImageSource::ImageData);
        }
        if self.hints.image_path.is_some() {
            r.push(ImageSource::ImagePath);
        }
        if self.app_icon.is_some() {
            r.push(ImageSource::AppIcon);
        }
        if self.hints.icon_data.is_some() {
            r.push(ImageSource::IconData);
        }
        assert(r@ =~= image_sources_of(*self));
        r
    }
}

/// A lifecycle message, from the bus side to the loop that owns the
/// notifications.
#[derive(Debug)]
pub enum Message {
    New(Details),
    Replace(Details),
    Close(u32),
}

/// Why a notification was closed. The wire codes are fixed: see `code`.
#[derive(Clone, Copy, Debug, PartialEq, Eq, Structural)]
pub enum Reason {
    /// The notification expired.
    Expired,
    /// The user dismissed it.
    Dismissed,
    /// A `CloseNotification` call closed it.
    Closed,
    /// Undefined or reserved reasons.
    Undefined,
}

/// The wire code of a close reason.
pub open spec fn reason_code(r: Reason) -> u32 {
    match r {
        Reason::Expired => 1,
        Reason::Dismissed => 2,
        Reason::Closed => 3,
        Reason::Undefined => 4,
    }
}

impl Reason {
    /// The wire code: 1 expired, 2 dismissed, 3 closed, 4 undefined.
    pub fn code(&self) -> (r: u32)
        ensures
            r == reason_code(*self),
            1 <= r <= 4,
    {
        match self {
            Reason::Expired => 1,
            Reason::Dismissed => 2,
            Reason::Closed => 3,
            Reason::Undefined => 4,
        }
    }
}

} // verus!

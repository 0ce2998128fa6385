use vstd::prelude::*;

verus! {

/// A button offered with a notification: the key reported back when it is
/// chosen, the text shown, and whether it is drawn as an icon named by the key.
///
/// The key `"default"` is the implicit primary action and is never drawn as a
/// button; `"inline-reply"` asks for a text reply field.
#[derive(Clone, Debug)]
pub struct Action {
    pub key: String,
    pub text: String,
    pub icon: bool,
}

/// What an action holds.
pub struct ActionView {
    pub key: Seq<char>,
    pub text: Seq<char>,
    pub icon: bool,
}

impl View for Action {
    type V = ActionView;

    open spec fn view(&self) -> ActionView {
        ActionView { key: self.key@, text: self.text@, icon: self.icon }
    }
}

/// The implicit primary action.
pub open spec fn default_action() -> ActionView {
    ActionView { key: "default"@, text: "Default"@, icon: false }
}

impl Action {
    pub fn new(key: &str, text: &str, icon: bool) -> (r: Action)
        ensures
            r@ == (ActionView { key: key@, text: text@, icon }),
    {
        Action { key: String::from_str(key), text: String::from_str(text), icon }
    }

    /// The text shown for the action.
    pub fn to_string(&self) -> (r: String)
        ensures
            r@ == self.text@,
    {
        self.text.clone()
    }

    /// Whether this is the implicit primary action.
    pub fn is_default(&self) -> (r: bool)
        ensures
            r == (self.key@ == "default"@),
    {
        crate::text::text_eq(self.key.as_str(), "default")
    }

    /// Whether this action asks for a text reply.
    pub fn is_inline_reply(&self) -> (r: bool)
        ensures
            r == (self.key@ == "inline-reply"@),
    {
        crate::text::text_eq(self.key.as_str(), "inline-reply")
    }
}

impl Default for Action {
    fn default() -> (r: Action)
        ensures
            r@ == default_action(),
    {
        Action::new("default", "Default", false)
    }
}

/// The actions of a flat list read as consecutive `(key, text)` pairs; a
/// trailing unpaired element is dropped.
pub open spec fn paired_actions(flat: Seq<Seq<char>>, icon: bool) -> Seq<ActionView> {
    Seq::new(
        flat.len() / 2,
        |i: int| ActionView { key: flat[2 * i], text: flat[2 * i + 1], icon },
    )
}

/// The views of a list of texts.
pub open spec fn texts_view(v: Seq<&str>) -> Seq<Seq<char>> {
    v.map_values(|s: &str| s@)
}

/// The views of a list of actions.
pub open spec fn actions_view(v: Seq<Action>) -> Seq<ActionView> {
    v.map_values(|a: Action| a@)
}

/// Builds the actions of a flat `[key, text, key, text, ...]` list.
pub fn actions_from_flat(flat: &Vec<&str>, icon: bool) -> (r: Vec<Action>)
    ensures
        actions_view(r@) == paired_actions(texts_view(flat@), icon),
{
    let n = flat.len() / 2;
    let mut r: Vec<Action> = Vec::new();
    let mut i: usize = 0;
    while i < n
        invariant
            n == flat.len() / 2,
            i <= n,
            r.len() == i,
            forall|j: int|
                0 <= j < i ==> #[trigger] r@[j]@ == paired_actions(texts_view(flat@), icon)[j],
        decreases n - i,
    {
        r.push(Action::new(flat[2 * i], flat[2 * i + 1], icon));
        i = i + 1;
    }
    assert(actions_view(r@) =~= paired_actions(texts_view(flat@), icon));
    r
}

} // verus!

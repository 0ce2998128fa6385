use vstd::prelude::*;

use crate::text::text_eq;

verus! {

/// A raw image handed over in a hint.
#[derive(Clone, Debug)]
pub struct IData {
    /// Width of the image in pixels.
    pub width: i32,
    /// Height of the image in pixels.
    pub height: i32,
    /// Distance in bytes between row starts.
    pub rowstride: i32,
    /// Whether the image has an alpha channel.
    pub has_alpha: bool,
    /// Bits per colour sample; always 8.
    pub bits_per_sample: i32,
    /// Channels per pixel: 4 with alpha, else 3.
    pub channels: i32,
    /// The pixels, in RGB(A) byte order.
    pub data: Vec<u8>,
}

/// The value of one hint, as the bus delivered it: only the shapes that some
/// recognised hint expects are told apart.
#[derive(Clone, Debug)]
pub enum HintValue {
    Bool(bool),
    Str(String),
    Image(IData),
    Other,
}

/// The recognised hints of a notification.
#[derive(Clone, Debug)]
pub struct Hints {
    pub action_icons: bool,
    pub desktop_entry: Option<String>,
    pub image_data: Option<IData>,
    pub image_path: Option<String>,
    pub icon_data: Option<IData>,
}

/// The value of the last entry under `key`, if any.
pub open spec fn last_hint(entries: Seq<(String, HintValue)>, key: Seq<char>) -> Option<HintValue>
    decreases entries.len(),
{
    if entries.len() == 0 {
        None
    } else if entries.last().0@ == key {
        Some(entries.last().1)
    } else {
        last_hint(entries.drop_last(), key)
    }
}

/// A flag hint: its boolean value, `false` when absent or of another type.
pub open spec fn flag_hint(v: Option<HintValue>) -> bool {
    match v {
        Some(HintValue::Bool(b)) => b,
        _ => false,
    }
}

/// A text hint: present only when it holds a non-empty text.
pub open spec fn text_hint(v: Option<HintValue>) -> Option<String> {
    match v {
        Some(HintValue::Str(s)) => if s@.len() > 0 {
            Some(s)
        } else {
            None
        },
        _ => None,
    }
}

/// An image hint: present only when it holds an image.
pub open spec fn image_hint(v: Option<HintValue>) -> Option<IData> {
    match v {
        Some(HintValue::Image(i)) => Some(i),
        _ => None,
    }
}

/// The hints that a list of entries decodes to. Unknown keys are ignored and a
/// value of the wrong type leaves its field at its default.
pub open spec fn decode_hints(entries: Seq<(String, HintValue)>) -> Hints {
    Hints {
        action_icons: flag_hint(last_hint(entries, "action-icons"@)),
        desktop_entry: text_hint(last_hint(entries, "desktop-entry"@)),
        image_data: image_hint(last_hint(entries, "image-data"@)),
        image_path: text_hint(last_hint(entries, "image-path"@)),
        icon_data: image_hint(last_hint(entries, "icon_data"@)),
    }
}

/// The recognised hint keys are pairwise different.
proof fn lemma_hint_keys_distinct()
    ensures
        "action-icons"@ != "desktop-entry"@,
        "action-icons"@ != "image-data"@,
        "action-icons"@ != "image-path"@,
        "action-icons"@ != "icon_data"@,
        "desktop-entry"@ != "image-data"@,
        "desktop-entry"@ != "image-path"@,
        "desktop-entry"@ != "icon_data"@,
        "image-data"@ != "image-path"@,
        "image-data"@ != "icon_data"@,
        "image-path"@ != "icon_data"@,
{
    reveal_strlit("action-icons");
    reveal_strlit("desktop-entry");
    reveal_strlit("image-data");
    reveal_strlit("image-path");
    reveal_strlit("icon_data");
    assert("action-icons"@[0] != "desktop-entry"@[0]);
    assert("action-icons"@[0] != "image-data"@[0]);
    assert("action-icons"@[0] != "image-path"@[0]);
    assert("action-icons"@[0] != "icon_data"@[0]);
    assert("desktop-entry"@[0] != "image-data"@[0]);
    assert("desktop-entry"@[0] != "image-path"@[0]);
    assert("desktop-entry"@[0] != "icon_data"@[0]);
    assert("image-data"@[6] != "image-path"@[6]);
    assert("image-data"@[1] != "icon_data"@[1]);
    assert("image-path"@[1] != "icon_data"@[1]);
}

impl Hints {
    /// No hints at all.
    pub fn empty() -> (r: Hints)
        ensures
            r == decode_hints(Seq::empty()),
    {
        Hints {
            action_icons: false,
            desktop_entry: None,
            image_data: None,
            image_path: None,
            icon_data: None,
        }
    }

    /// Decodes the entries of a hint dictionary; where a key occurs more than
    /// once, its last entry counts.
    pub fn from_entries(entries: Vec<(String, HintValue)>) -> (r: Hints)
        ensures
            r == decode_hints(entries@),
    {
        let ghost orig = entries@;
        let mut entries = entries;
        let mut action_icons = false;
        let mut desktop_entry: Option<String> = None;
        let mut image_data: Option<IData> = None;
        let mut image_path: Option<String> = None;
        let mut icon_data: Option<IData> = None;
        let mut seen_action_icons = false;
        let mut seen_desktop_entry = false;
        let mut seen_image_data = false;
        let mut seen_image_path = false;
        let mut seen_icon_data = false;
        while entries.len() > 0
            invariant
                !seen_action_icons ==> !action_icons,
                !seen_desktop_entry ==> desktop_entry is None,
                !seen_image_data ==> image_data is None,
                !seen_image_path ==> image_path is None,
                !seen_icon_data ==> icon_data is None,
                seen_action_icons ==> action_icons == flag_hint(
                    last_hint(orig, "action-icons"@),
                ),
                !seen_action_icons ==> last_hint(orig, "action-icons"@) == last_hint(
                    entries@,
                    "action-icons"@,
                ),
                seen_desktop_entry ==> desktop_entry == text_hint(
                    last_hint(orig, "desktop-entry"@),
                ),
                !seen_desktop_entry ==> last_hint(orig, "desktop-entry"@) == last_hint(
                    entries@,
                    "desktop-entry"@,
                ),
                seen_image_data ==> image_data == image_hint(last_hint(orig, "image-data"@)),
                !seen_image_data ==> last_hint(orig, "image-data"@) == last_hint(
                    entries@,
                    "image-data"@,
                ),
                seen_image_path ==> image_path == text_hint(last_hint(orig, "image-path"@)),
                !seen_image_path ==> last_hint(orig, "image-path"@) == last_hint(
                    entries@,
                    "image-path"@,
                ),
                seen_icon_data ==> icon_data == image_hint(last_hint(orig, "icon_data"@)),
                !seen_icon_data ==> last_hint(orig, "icon_data"@) == last_hint(
                    entries@,
                    "icon_data"@,
                ),
            decreases entries.len(),
        {
            let ghost before = entries@;
            let (key, value) = entries.pop().unwrap();
            assert(entries@ =~= before.drop_last());
            assert(before.last() == (key, value));
            proof {
                lemma_hint_keys_distinct();
            }
            if text_eq(key.as_str(), "action-icons") {
                if !seen_action_icons {
                    seen_action_icons = true;
                    action_icons = match value {
                        HintValue::Bool(b) => b,
                        _ => false,
                    };
                }
            } else if text_eq(key.as_str(), "desktop-entry") {
                if !seen_desktop_entry {
                    seen_desktop_entry = true;
                    desktop_entry = match value {
                        HintValue::Str(s) => if s.as_str().unicode_len() > 0 {
                            Some(s)
                        } else {
                            None
                        },
                        _ => None,
                    };
                }
            } else if text_eq(key.as_str(), "image-data") {
                if !seen_image_data {
                    seen_image_data = true;
                    image_data = match value {
                        HintValue::Image(i) => Some(i),
                        _ => None,
                    };
                }
            } else if text_eq(key.as_str(), "image-path") {
                if !seen_image_path {
                    seen_image_path = true;
                    image_path = match value {
                        HintValue::Str(s) => if s.as_str().unicode_len() > 0 {
                            Some(s)
                        } else {
                            None
                        },
                        _ => None,
                    };
                }
            } else if text_eq(key.as_str(), "icon_data") {
                if !seen_icon_data {
                    seen_icon_data = true;
                    icon_data = match value {
                        HintValue::Image(i) => Some(i),
                        _ => None,
                    };
                }
            }
        }
        Hints { action_icons, desktop_entry, image_data, image_path, icon_data }
    }
}

/// An empty `desktop-entry` or `image-path` decodes to an absent hint, and a
/// present one is never empty.
pub proof fn lemma_empty_text_hints_absent(entries: Seq<(String, HintValue)>)
    ensures
        (last_hint(entries, "desktop-entry"@) matches Some(HintValue::Str(s)) && s@.len() == 0)
            ==> decode_hints(entries).desktop_entry is None,
        (last_hint(entries, "image-path"@) matches Some(HintValue::Str(s)) && s@.len() == 0)
            ==> decode_hints(entries).image_path is None,
        decode_hints(entries).desktop_entry matches Some(s) ==> s@.len() > 0,
        decode_hints(entries).image_path matches Some(s) ==> s@.len() > 0,
{
}

} // verus!

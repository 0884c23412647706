//! The signs that messages to the user start with.

use vstd::prelude::*;

verus! {

/// Encapsulates a string that holds an emoji. Doesn't check that the given
/// string is a valid emoji.
pub struct Emoji(String);

impl View for Emoji {
    type V = Seq<char>;

    closed spec fn view(&self) -> Seq<char> {
        self.0@
    }
}

impl Emoji {
    /// The emoji as text, to be written out.
    pub fn as_str(&self) -> (text: &str)
        ensures
            text@ == self@,
    {
        self.0.as_str()
    }

    /// The emoji as an owned string.
    pub fn to_string(&self) -> (text: String)
        ensures
            text@ == self@,
    {
        self.0.clone()
    }
}

/// Returns the assigned emoji for success: a check mark.
pub fn for_success() -> (emoji: Emoji)
    ensures
        emoji@ == "\u{2705}"@,
{
    Emoji("\u{2705}".to_owned())
}

/// Returns the assigned emoji for warnings: a warning sign, with a space
/// behind it, which it needs to be shown well.
pub fn for_warning() -> (emoji: Emoji)
    ensures
        emoji@ == "\u{26a0}\u{fe0f} "@,
{
    Emoji("\u{26a0}\u{fe0f} ".to_owned())
}

/// Returns the assigned emoji for errors: a cross.
pub fn for_error() -> (emoji: Emoji)
    ensures
        emoji@ == "\u{274c}"@,
{
    Emoji("\u{274c}".to_owned())
}

/// Returns the assigned emoji for something that was looked for: a
/// magnifying glass.
pub fn for_search() -> (emoji: Emoji)
    ensures
        emoji@ == "\u{1f50e}"@,
{
    Emoji("\u{1f50e}".to_owned())
}

} // verus!

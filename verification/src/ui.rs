//! User-interface state the screens share: the status line and the loading
//! flag. Rendering itself lives outside the library.

use vstd::prelude::*;
use vstd::string::StringExecFns;

verus! {

/// UI state.
pub struct Ui {
    /// Current status message.
    pub status_message: String,
    /// Whether we're currently loading.
    pub is_loading: bool,
}

impl Ui {
    /// Create a new UI instance.
    pub fn new() -> (r: Self)
        ensures
            r.status_message@ == "Ready"@,
            !r.is_loading,
    {
        Ui { status_message: String::from_str("Ready"), is_loading: false }
    }

    /// Set the status message.
    pub fn set_status(&mut self, message: String)
        ensures
            final(self).status_message == message,
            final(self).is_loading == old(self).is_loading,
    {
        self.status_message = message;
    }

    /// Set loading state; entering the loading state also announces it.
    pub fn set_loading(&mut self, loading: bool)
        ensures
            final(self).is_loading == loading,
            loading ==> final(self).status_message@ == "Loading..."@,
            !loading ==> final(self).status_message == old(self).status_message,
    {
        self.is_loading = loading;
        if loading {
            self.status_message = String::from_str("Loading...");
        }
    }
}

/// Split display text into pieces for highlight rendering: one piece per
/// character, marked when its position matched the query.
pub fn highlight_segments(text: &Vec<char>, positions: &Vec<usize>) -> (r: Vec<(char, bool)>)
    ensures
        r@.len() == text@.len(),
        forall|i: int|
            0 <= i < text@.len() ==> #[trigger] r@[i] == (
            text@[i],
            exists|j: int| 0 <= j < positions@.len() && positions@[j] == i,
            ),
{
    let mut r: Vec<(char, bool)> = Vec::new();
    let mut i: usize = 0;
    while i < text.len()
        invariant
            i <= text@.len(),
            r@.len() == i,
            forall|k: int|
                0 <= k < i ==> #[trigger] r@[k] == (
                text@[k],
                exists|j: int| 0 <= j < positions@.len() && positions@[j] == k,
                ),
        decreases text.len() - i,
    {
        let mut hit = false;
        let mut j: usize = 0;
        while j < positions.len()
            invariant
                j <= positions@.len(),
                hit == exists|t: int| 0 <= t < j && positions@[t] == i as int,
            decreases positions.len() - j,
        {
            if positions[j] == i {
                hit = true;
            }
            j = j + 1;
        }
        r.push((text[i], hit));
        i = i + 1;
    }
    r
}

} // verus!

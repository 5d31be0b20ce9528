//! Duplicate suppression for clipboard change events.

use vstd::prelude::*;
use crate::content::{ClipboardContent, ContentView};

verus! {

/// How long to wait after a change notification before the clipboard is
/// read, in milliseconds: some platforms notify a little before the new
/// content is in place. A tunable value; the wait narrows the race and does
/// not close it.
pub const SETTLE_DELAY_MS: u64 = 50;

/// The state of the clipboard monitor: the content that it emitted last.
#[derive(Debug)]
pub struct Monitor {
    pub last_emitted: Option<ClipboardContent>,
}

/// The value of an optional content.
pub open spec fn content_view(content: Option<ClipboardContent>) -> Option<ContentView> {
    match content {
        Some(c) => Some(c@),
        None => None,
    }
}

impl View for Monitor {
    type V = Option<ContentView>;

    open spec fn view(&self) -> Option<ContentView> {
        content_view(self.last_emitted)
    }
}

/// What is emitted when `content` is read after `last` was emitted: nothing
/// if it is the same again, else the content.
pub open spec fn emitted(last: Option<ContentView>, content: ContentView) -> Option<ContentView> {
    if last == Some(content) {
        None
    } else {
        Some(content)
    }
}

/// All that is emitted when the contents of `read` are read in turn, the
/// first of them after `last` was emitted.
pub open spec fn emitted_all(last: Option<ContentView>, read: Seq<ContentView>) -> Seq<
    ContentView,
>
    decreases read.len(),
{
    if read.len() == 0 {
        Seq::empty()
    } else {
        match emitted(last, read[0]) {
            Some(c) => seq![c] + emitted_all(Some(c), read.drop_first()),
            None => emitted_all(last, read.drop_first()),
        }
    }
}

impl Monitor {
    /// A monitor that has emitted nothing yet.
    pub fn new() -> (res: Monitor)
        ensures
            res@ is None,
    {
        Monitor { last_emitted: None }
    }

    /// Takes the content that was read after a change notification and
    /// decides whether to pass it on.
    ///
    /// A content equal to the one emitted last is dropped and the state stays
    /// as it is. Any other content is returned for emission and becomes the
    /// one emitted last.
    pub fn on_clipboard_change(&mut self, content: ClipboardContent) -> (res: Option<
        ClipboardContent,
    >)
        ensures
            content_view(res) == emitted(old(self)@, content@),
            final(self)@ == Some(content@),
    {
        let same = match &self.last_emitted {
            Some(last) => *last == content,
            None => false,
        };
        if same {
            None
        } else {
            self.last_emitted = Some(content.clone());
            Some(content)
        }
    }
}

/// The same content twice in a row is emitted at most once, and a content
/// that differs from the one read before it is always emitted.
pub proof fn lemma_consecutive_contents(
    last: Option<ContentView>,
    first: ContentView,
    second: ContentView,
)
    ensures
        first == second ==> emitted(Some(first), second) is None,
        first != second ==> emitted(Some(first), second) == Some(second),
        first == second ==> emitted_all(last, seq![first, second]).len() <= 1,
        first != second ==> emitted_all(last, seq![first, second]).last() == second,
{
    let read = seq![first, second];
    let rest = read.drop_first();
    assert(rest =~= seq![second]);
    assert(rest.drop_first() =~= Seq::<ContentView>::empty());
    reveal_with_fuel(emitted_all, 3);
}

/// No two neighbours in the sequence are equal.
pub open spec fn no_repeats(s: Seq<ContentView>) -> bool {
    forall|k: int| 0 <= k < s.len() - 1 ==> #[trigger] s[k] != s[k + 1]
}

/// No content is emitted twice in a row, and the first that is emitted
/// differs from the one emitted before.
pub proof fn lemma_no_repeats(last: Option<ContentView>, read: Seq<ContentView>)
    ensures
        emitted_all(last, read).len() > 0 ==> last != Some(emitted_all(last, read)[0]),
        no_repeats(emitted_all(last, read)),
    decreases read.len(),
{
    if read.len() > 0 {
        match emitted(last, read[0]) {
            Some(c) => {
                lemma_no_repeats(Some(c), read.drop_first());
                let tail = emitted_all(Some(c), read.drop_first());
                let all = emitted_all(last, read);
                assert(all == seq![c] + tail);
                assert forall|k: int| 0 <= k < all.len() - 1 implies #[trigger] all[k] != all[k
                    + 1] by {
                    if k == 0 {
                        assert(all[1] == tail[0]);
                    } else {
                        assert(all[k] == tail[k - 1] && all[k + 1] == tail[k]);
                    }
                }
            },
            None => {
                lemma_no_repeats(last, read.drop_first());
            },
        }
    }
}

} // verus!

//! Overlay state of the command palette: whether it is open, the query
//! typed so far, the matching commands and the selected one, and the key
//! handling that drives it.

use vstd::prelude::*;
use vstd::utf8::encode_utf8;
use crate::command_palette::{
    descriptor_views, lemma_relevance_ranking_unique, relevance_ranking, CommandDescriptor, CommandId, CommandPalette,
    DescriptorView,
};
use crate::text::{pop_char, push_char};

verus! {

/// Maximum query length for palette search, in bytes.
pub const MAX_QUERY_LEN: usize = 128;

/// Maximum number of results to display.
pub const MAX_DISPLAYED_RESULTS: usize = 10;

/// Focus target to restore when the palette closes.
#[derive(Debug, Clone, Copy, PartialEq, Eq, Structural)]
pub enum FocusTarget {
    /// No component focused
    NoFocus,
    /// Editor component
    Editor,
    /// CLI/Command component
    Cli,
}

/// State of the command palette overlay.
pub struct PaletteOverlayState {
    /// Whether the palette is open
    pub open: bool,
    /// Current search query
    pub query: String,
    /// Filtered and sorted results
    pub results: Vec<CommandDescriptor>,
    /// Selected result index
    pub selection_index: usize,
    /// Focus target to restore when closing
    pub prev_focus: FocusTarget,
}

/// The results shown for a query: every command for the empty query, else
/// the matching commands in relevance order.
pub open spec fn results_for(palette: CommandPalette, q: Seq<char>, r: Seq<DescriptorView>) -> bool {
    if q.len() == 0 {
        r == descriptor_views(palette.commands())
    } else {
        exists|ks: Seq<(u32, usize)>| {
            &&& relevance_ranking(descriptor_views(palette.commands()), q, ks)
            &&& r.len() == ks.len()
            &&& forall|k: int| 0 <= k < ks.len() ==> #[trigger] r[k] == palette.commands()[ks[k].1 as int]@
        }
    }
}

/// The results of a query over a palette are determined: two result
/// lists that both meet the definition are the same, so every refresh of
/// the same query shows the same commands in the same order.
pub proof fn lemma_results_unique(palette: CommandPalette, q: Seq<char>, a: Seq<DescriptorView>, b: Seq<DescriptorView>)
    requires
        results_for(palette, q, a),
        results_for(palette, q, b),
    ensures
        a == b,
{
    if q.len() > 0 {
        let ka = choose|ks: Seq<(u32, usize)>| {
            &&& relevance_ranking(descriptor_views(palette.commands()), q, ks)
            &&& a.len() == ks.len()
            &&& forall|k: int| 0 <= k < ks.len() ==> #[trigger] a[k] == palette.commands()[ks[k].1 as int]@
        };
        let kb = choose|ks: Seq<(u32, usize)>| {
            &&& relevance_ranking(descriptor_views(palette.commands()), q, ks)
            &&& b.len() == ks.len()
            &&& forall|k: int| 0 <= k < ks.len() ==> #[trigger] b[k] == palette.commands()[ks[k].1 as int]@
        };
        lemma_relevance_ranking_unique(descriptor_views(palette.commands()), q, ka, kb);
        assert forall|k: int| 0 <= k < a.len() implies a[k] == b[k] by {
            assert(a[k] == palette.commands()[ka[k].1 as int]@);
            assert(b[k] == palette.commands()[kb[k].1 as int]@);
        }
        assert(a =~= b);
    }
}

/// The selection kept after the results change: clamped to the last
/// result, or zero when there is none.
pub open spec fn clamp_selection(sel: usize, len: nat) -> usize {
    if len > 0 {
        if sel <= len - 1 {
            sel
        } else {
            (len - 1) as usize
        }
    } else {
        0
    }
}

impl PaletteOverlayState {
    /// The results as descriptor views.
    pub open spec fn results_view(&self) -> Seq<DescriptorView> {
        descriptor_views(self.results@)
    }

    /// Creates a closed palette with an empty query.
    pub fn new() -> (r: Self)
        ensures
            !r.open,
            r.query@.len() == 0,
            r.results@.len() == 0,
            r.selection_index == 0,
            r.prev_focus == FocusTarget::NoFocus,
    {
        PaletteOverlayState {
            open: false,
            query: String::new(),
            results: Vec::new(),
            selection_index: 0,
            prev_focus: FocusTarget::NoFocus,
        }
    }

    /// Opens the palette, remembering where focus was.
    pub fn open(&mut self, prev_focus: FocusTarget)
        ensures
            final(self).open,
            final(self).query@.len() == 0,
            final(self).results@.len() == 0,
            final(self).selection_index == 0,
            final(self).prev_focus == prev_focus,
    {
        self.open = true;
        self.query = String::new();
        self.results = Vec::new();
        self.selection_index = 0;
        self.prev_focus = prev_focus;
    }

    /// Closes the palette.
    pub fn close(&mut self)
        ensures
            !final(self).open,
            final(self).query@.len() == 0,
            final(self).results@.len() == 0,
            final(self).selection_index == 0,
            final(self).prev_focus == old(self).prev_focus,
    {
        self.open = false;
        self.query = String::new();
        self.results = Vec::new();
        self.selection_index = 0;
    }

    /// Whether the palette is open.
    pub fn is_open(&self) -> (r: bool)
        ensures
            r == self.open,
    {
        self.open
    }

    /// Where focus was before the palette opened.
    pub fn prev_focus(&self) -> (r: FocusTarget)
        ensures
            r == self.prev_focus,
    {
        self.prev_focus
    }

    /// Replaces the results by those of the current query and clamps the
    /// selection.
    fn refresh_results(&mut self, palette: &CommandPalette)
        ensures
            final(self).open == old(self).open,
            final(self).query == old(self).query,
            final(self).prev_focus == old(self).prev_focus,
            results_for(*palette, old(self).query@, final(self).results_view()),
            final(self).selection_index == clamp_selection(
                old(self).selection_index,
                final(self).results@.len(),
            ),
    {
        if self.query.as_str().is_empty() {
            self.results = palette.list_commands();
        } else {
            self.results = palette.filter_commands(self.query.as_str());
        }
        if self.results.len() > 0 {
            let last = self.results.len() - 1;
            if self.selection_index > last {
                self.selection_index = last;
            }
        } else {
            self.selection_index = 0;
        }
    }

    /// Replaces the query and refreshes the results.
    pub fn update_query(&mut self, palette: &CommandPalette, query: String)
        ensures
            final(self).open == old(self).open,
            final(self).prev_focus == old(self).prev_focus,
            final(self).query@ == query@,
            results_for(*palette, query@, final(self).results_view()),
            final(self).selection_index == clamp_selection(
                old(self).selection_index,
                final(self).results@.len(),
            ),
    {
        self.query = query;
        self.refresh_results(palette);
    }

    /// Appends a character to the query, unless the query already holds
    /// the maximum number of bytes, and refreshes the results.
    pub fn append_char(&mut self, palette: &CommandPalette, ch: char)
        ensures
            final(self).open == old(self).open,
            final(self).prev_focus == old(self).prev_focus,
            (encode_utf8(old(self).query@).len() as usize) < MAX_QUERY_LEN ==> {
                &&& final(self).query@ == old(self).query@.push(ch)
                &&& results_for(*palette, final(self).query@, final(self).results_view())
                &&& final(self).selection_index == clamp_selection(
                    old(self).selection_index,
                    final(self).results@.len(),
                )
            },
            (encode_utf8(old(self).query@).len() as usize) >= MAX_QUERY_LEN ==> final(self).query
                == old(self).query && final(self).results == old(self).results
                && final(self).selection_index == old(self).selection_index,
    {
        if self.query.as_str().len() < MAX_QUERY_LEN {
            push_char(&mut self.query, ch);
            self.refresh_results(palette);
        }
    }

    /// Removes the last character of a non-empty query and refreshes the
    /// results; does nothing on an empty query.
    pub fn backspace(&mut self, palette: &CommandPalette)
        ensures
            final(self).open == old(self).open,
            final(self).prev_focus == old(self).prev_focus,
            old(self).query@.len() > 0 ==> {
                &&& final(self).query@ == old(self).query@.drop_last()
                &&& results_for(*palette, final(self).query@, final(self).results_view())
                &&& final(self).selection_index == clamp_selection(
                    old(self).selection_index,
                    final(self).results@.len(),
                )
            },
            old(self).query@.len() == 0 ==> final(self).query == old(self).query
                && final(self).results == old(self).results
                && final(self).selection_index == old(self).selection_index,
    {
        if !self.query.as_str().is_empty() {
            pop_char(&mut self.query);
            self.refresh_results(palette);
        }
    }

    /// Moves the selection up, stopping at the first result.
    pub fn move_selection_up(&mut self)
        ensures
            final(self).selection_index == (if old(self).selection_index > 0 {
                (old(self).selection_index - 1) as usize
            } else {
                0
            }),
            final(self).open == old(self).open,
            final(self).query == old(self).query,
            final(self).results == old(self).results,
            final(self).prev_focus == old(self).prev_focus,
    {
        if self.selection_index > 0 {
            self.selection_index = self.selection_index - 1;
        }
    }

    /// Moves the selection down, stopping at the last result.
    pub fn move_selection_down(&mut self)
        ensures
            final(self).selection_index == (if old(self).results@.len() > 0
                && old(self).selection_index < old(self).results@.len() - 1 {
                (old(self).selection_index + 1) as usize
            } else {
                old(self).selection_index
            }),
            final(self).open == old(self).open,
            final(self).query == old(self).query,
            final(self).results == old(self).results,
            final(self).prev_focus == old(self).prev_focus,
    {
        if self.results.len() > 0 && self.selection_index < self.results.len() - 1 {
            self.selection_index = self.selection_index + 1;
        }
    }

    /// The id of the selected result, if the selection points at one.
    pub fn selected_command(&self) -> (r: Option<&CommandId>)
        ensures
            match r {
                Some(id) => self.selection_index < self.results@.len() && *id
                    == self.results@[self.selection_index as int].id,
                None => self.selection_index >= self.results@.len(),
            },
    {
        if self.selection_index < self.results.len() {
            Some(&self.results[self.selection_index].id)
        } else {
            None
        }
    }

    /// The results to display: at most the first ten.
    pub fn displayed_results(&self) -> (r: &[CommandDescriptor])
        ensures
            r@ == self.results@.take(
                if self.results@.len() <= MAX_DISPLAYED_RESULTS {
                    self.results@.len() as int
                } else {
                    MAX_DISPLAYED_RESULTS as int
                },
            ),
    {
        let end = if self.results.len() <= MAX_DISPLAYED_RESULTS {
            self.results.len()
        } else {
            MAX_DISPLAYED_RESULTS
        };
        vstd::slice::slice_subrange(self.results.as_slice(), 0, end)
    }

    /// The current query.
    pub fn query(&self) -> (r: &str)
        ensures
            r@ == self.query@,
    {
        self.query.as_str()
    }

    /// The selection index.
    pub fn selection_index(&self) -> (r: usize)
        ensures
            r == self.selection_index,
    {
        self.selection_index
    }

    /// The number of results.
    pub fn result_count(&self) -> (r: usize)
        ensures
            r == self.results@.len(),
    {
        self.results.len()
    }
}

/// Result of handling a key in the palette overlay.
#[derive(Debug, Clone, PartialEq, Eq)]
pub enum PaletteKeyAction {
    /// Event was not handled
    NotHandled,
    /// Event was consumed without further action
    Consumed,
    /// Close the palette
    Close,
    /// Execute the given command
    Execute(CommandId),
}

/// The overlay `t` is `s` after Backspace: a non-empty query loses its
/// last character and the results and selection are refreshed; an empty
/// query leaves the overlay as it was.
pub open spec fn after_backspace(palette: CommandPalette, s: PaletteOverlayState, t: PaletteOverlayState) -> bool {
    &&& t.open == s.open
    &&& t.prev_focus == s.prev_focus
    &&& s.query@.len() > 0 ==> {
        &&& t.query@ == s.query@.drop_last()
        &&& results_for(palette, t.query@, t.results_view())
        &&& t.selection_index == clamp_selection(s.selection_index, t.results@.len())
    }
    &&& s.query@.len() == 0 ==> t.query == s.query && t.results == s.results && t.selection_index
        == s.selection_index
}

/// The overlay `t` is `s` after typing `ch`: a query below the length
/// limit gains it and the results and selection are refreshed; a full
/// query leaves the overlay as it was.
pub open spec fn after_append(palette: CommandPalette, s: PaletteOverlayState, ch: char, t: PaletteOverlayState) -> bool {
    &&& t.open == s.open
    &&& t.prev_focus == s.prev_focus
    &&& (encode_utf8(s.query@).len() as usize) < MAX_QUERY_LEN ==> {
        &&& t.query@ == s.query@.push(ch)
        &&& results_for(palette, t.query@, t.results_view())
        &&& t.selection_index == clamp_selection(s.selection_index, t.results@.len())
    }
    &&& (encode_utf8(s.query@).len() as usize) >= MAX_QUERY_LEN ==> t.query == s.query && t.results
        == s.results && t.selection_index == s.selection_index
}

/// Handles one input byte for the palette overlay: Escape closes, Enter
/// executes the selected command, Backspace/Delete removes a character,
/// the arrow placeholders are consumed, printable ASCII is appended to the
/// query; anything else is not handled.
pub fn handle_palette_key(state: &mut PaletteOverlayState, palette: &CommandPalette, byte: u8) -> (r: PaletteKeyAction)
    ensures
        byte == 0x1B ==> r == PaletteKeyAction::Close && *final(state) == *old(state),
        (byte == 0x0A || byte == 0x0D) ==> *final(state) == *old(state) && (if old(state).selection_index
            < old(state).results@.len() {
            r matches PaletteKeyAction::Execute(id) && id@ == old(state).results@[old(
                state,
            ).selection_index as int].id@
        } else {
            r == PaletteKeyAction::NotHandled
        }),
        (byte == 0x08 || byte == 0x7F) ==> r == PaletteKeyAction::Consumed && after_backspace(
            *palette,
            *old(state),
            *final(state),
        ),
        (byte == 0x1E || byte == 0x1F) ==> r == PaletteKeyAction::Consumed && *final(state) == *old(
            state,
        ),
        (0x20 <= byte < 0x7F) ==> r == PaletteKeyAction::Consumed && after_append(
            *palette,
            *old(state),
            byte as char,
            *final(state),
        ),
        !(byte == 0x1B || byte == 0x0A || byte == 0x0D || byte == 0x08 || byte == 0x7F || byte == 0x1E
            || byte == 0x1F || (0x20 <= byte < 0x7F)) ==> r == PaletteKeyAction::NotHandled && *final(state)
            == *old(state),
{
    if byte == 0x1B {
        PaletteKeyAction::Close
    } else if byte == 0x0A || byte == 0x0D {
        match state.selected_command() {
            Some(cmd_id) => PaletteKeyAction::Execute(cmd_id.duplicate()),
            None => PaletteKeyAction::NotHandled,
        }
    } else if byte == 0x08 || byte == 0x7F {
        state.backspace(palette);
        PaletteKeyAction::Consumed
    } else if byte == 0x1E || byte == 0x1F {
        PaletteKeyAction::Consumed
    } else if byte >= 0x20 && byte < 0x7F {
        state.append_char(palette, byte as char);
        PaletteKeyAction::Consumed
    } else {
        PaletteKeyAction::NotHandled
    }
}

} // verus!

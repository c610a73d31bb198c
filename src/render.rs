use vstd::prelude::*;

use crate::key::KeyRecord;
use crate::selection::{SelectionState, SelectionView};

verus! {

/// One line of the list as drawn: its text, and whether it is drawn as the
/// line under the cursor.
pub struct Row {
    pub text: String,
    pub highlighted: bool,
}

impl View for Row {
    type V = (Seq<char>, bool);

    open spec fn view(&self) -> (Seq<char>, bool) {
        (self.text@, self.highlighted)
    }
}

/// What starts the line under the cursor.
pub open spec fn highlight_prefix() -> Seq<char> {
    seq!['>', ' ']
}

/// What starts every other line, as wide as the cursor's prefix.
pub open spec fn plain_prefix() -> Seq<char> {
    seq![' ', ' ']
}

/// What ends the line of the entry that is currently configured.
pub open spec fn current_marker() -> Seq<char> {
    seq![' ', '←', ' ', 'c', 'u', 'r', 'r', 'e', 'n', 't']
}

/// The text of the line of `e`: a prefix that shows the cursor, the
/// identifier, a space, the label, and the marker when `e` is the configured
/// entry.
pub open spec fn row_text(e: KeyRecord, marked: bool, highlighted: bool) -> Seq<char> {
    (if highlighted {
        highlight_prefix()
    } else {
        plain_prefix()
    }) + e.identifier@ + seq![' '] + e.label@ + (if marked {
        current_marker()
    } else {
        Seq::empty()
    })
}

/// The lines of the list, one for each entry in display order.
pub open spec fn rendered(v: SelectionView) -> Seq<(Seq<char>, bool)> {
    Seq::new(
        v.entries.len(),
        |i: int| (row_text(v.entries[i], v.is_marked(i), i == v.highlight), i == v.highlight),
    )
}

fn line_for(e: &KeyRecord, marked: bool, highlighted: bool) -> (r: String)
    ensures
        r@ == row_text(*e, marked, highlighted),
{
    let mut t = String::new();
    if highlighted {
        t.append("> ");
        proof {
            reveal_strlit("> ");
        }
    } else {
        t.append("  ");
        proof {
            reveal_strlit("  ");
        }
    }
    t.append(e.identifier.as_str());
    t.append(" ");
    proof {
        reveal_strlit(" ");
    }
    t.append(e.label.as_str());
    if marked {
        t.append(" ← current");
        proof {
            reveal_strlit(" ← current");
        }
    }
    proof {
        assert(t@ =~= row_text(*e, marked, highlighted));
    }
    t
}

/// The lines to draw for the selection, one for each entry in display order.
pub fn render_rows(state: &SelectionState) -> (r: Vec<Row>)
    requires
        state.wf(),
    ensures
        r@.map_values(|row: Row| row@) == rendered(state.view()),
{
    let n = state.len();
    let h = state.highlight_index();
    let mut rows: Vec<Row> = Vec::new();
    let mut i: usize = 0;
    while i < n
        invariant
            n == state.view().entries.len(),
            h == state.view().highlight,
            i <= n,
            rows@.len() == i,
            forall|j: int| 0 <= j < i ==> #[trigger] rows@[j]@ == rendered(state.view())[j],
        decreases n - i,
    {
        let marked = state.is_currently_configured(i);
        let text = line_for(state.entry(i), marked, i == h);
        rows.push(Row { text, highlighted: i == h });
        i = i + 1;
    }
    proof {
        assert(rows@.map_values(|row: Row| row@) =~= rendered(state.view()));
    }
    rows
}

/// However the cursor has moved, exactly one line is drawn as the line under
/// the cursor, and at most one line carries the marker of the configured
/// entry.
pub proof fn lemma_one_highlighted_row(v: SelectionView)
    requires
        v.wf(),
    ensures
        rendered(v).len() == v.entries.len(),
        rendered(v)[v.highlight].1,
        forall|i: int| 0 <= i < rendered(v).len() && #[trigger] rendered(v)[i].1 ==> i == v.highlight,
        forall|i: int, j: int|
            0 <= i < v.entries.len() && 0 <= j < v.entries.len() && v.is_marked(i) && v.is_marked(
                j,
            ) ==> i == j,
{
}

} // verus!

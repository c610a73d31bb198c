use vstd::prelude::*;

use crate::key::KeyRecord;

verus! {

/// Why a selection session could not start.
#[derive(Debug, PartialEq, Eq, Structural)]
pub enum SelectionError {
    /// The list of entries was empty.
    EmptyInput,
}

/// The abstract value of a selection: the entries in display order, the
/// position of the configured entry, if any, and the cursor position.
pub ghost struct SelectionView {
    pub entries: Seq<KeyRecord>,
    pub current: Option<int>,
    pub highlight: int,
}

impl SelectionView {
    /// The cursor is on an entry and the configured entry, if any, is one.
    pub open spec fn wf(self) -> bool {
        &&& self.entries.len() > 0
        &&& 0 <= self.highlight < self.entries.len()
        &&& self.current matches Some(c) ==> 0 <= c < self.entries.len()
    }

    /// The same selection with the cursor at `h`.
    pub open spec fn with_highlight(self, h: int) -> SelectionView {
        SelectionView { highlight: h, ..self }
    }

    /// The selection after one step up, wrapping from the first entry to the last.
    pub open spec fn moved_up(self) -> SelectionView {
        self.with_highlight(
            if self.highlight == 0 {
                self.entries.len() - 1
            } else {
                self.highlight - 1
            },
        )
    }

    /// The selection after one step down, wrapping from the last entry to the first.
    pub open spec fn moved_down(self) -> SelectionView {
        self.with_highlight(
            if self.highlight >= self.entries.len() - 1 {
                0
            } else {
                self.highlight + 1
            },
        )
    }

    /// The selection after `k` steps up.
    pub open spec fn moved_up_times(self, k: nat) -> SelectionView
        decreases k,
    {
        if k == 0 {
            self
        } else {
            self.moved_up_times((k - 1) as nat).moved_up()
        }
    }

    /// The selection after `k` steps down.
    pub open spec fn moved_down_times(self, k: nat) -> SelectionView
        decreases k,
    {
        if k == 0 {
            self
        } else {
            self.moved_down_times((k - 1) as nat).moved_down()
        }
    }

    /// Whether the entry at `i` is the one marked as currently configured.
    pub open spec fn is_marked(self, i: int) -> bool {
        self.current == Some(i)
    }
}

/// After `k` steps down the cursor stands `k` entries further, counted
/// around the list; nothing else changes.
pub proof fn lemma_moved_down_times(v: SelectionView, k: nat)
    requires
        v.wf(),
    ensures
        v.moved_down_times(k) == v.with_highlight((v.highlight + k) % (v.entries.len() as int)),
    decreases k,
{
    let n = v.entries.len() as int;
    if k > 0 {
        lemma_moved_down_times(v, (k - 1) as nat);
        let h = (v.highlight + k - 1) % n;
        assert((v.highlight + k) % n == if h >= n - 1 { 0 } else { h + 1 }) by (nonlinear_arith)
            requires
                n > 0,
                0 <= v.highlight < n,
                k >= 1,
                h == (v.highlight + k - 1) % n,
        {
            assert(0 <= h < n);
            assert(v.highlight + k == (v.highlight + k - 1) + 1);
        }
    } else {
        assert(v.highlight % (v.entries.len() as int) == v.highlight) by (nonlinear_arith)
            requires
                0 <= v.highlight < v.entries.len(),
        ;
    }
}

/// After `k` steps up the cursor stands `k` entries earlier, counted
/// around the list; nothing else changes.
pub proof fn lemma_moved_up_times(v: SelectionView, k: nat)
    requires
        v.wf(),
    ensures
        v.moved_up_times(k) == v.with_highlight(
            ((v.highlight - k) % (v.entries.len() as int) + v.entries.len()) % (
            v.entries.len() as int),
        ),
    decreases k,
{
    let n = v.entries.len() as int;
    if k > 0 {
        lemma_moved_up_times(v, (k - 1) as nat);
        let h = ((v.highlight - (k - 1)) % n + n) % n;
        assert(((v.highlight - k) % n + n) % n == if h == 0 { n - 1 } else { h - 1 }) by (nonlinear_arith)
            requires
                n > 0,
                0 <= v.highlight < n,
                k >= 1,
                h == ((v.highlight - (k - 1)) % n + n) % n,
        {
        }
    } else {
        assert((v.highlight % n + n) % n == v.highlight) by (nonlinear_arith)
            requires
                0 <= v.highlight < n,
        ;
    }
}

/// Moving the cursor down once per entry brings it back where it started,
/// and so does moving it up once per entry.
pub proof fn lemma_full_cycle(v: SelectionView)
    requires
        v.wf(),
    ensures
        v.moved_down_times(v.entries.len()) == v,
        v.moved_up_times(v.entries.len()) == v,
{
    let n = v.entries.len() as int;
    lemma_moved_down_times(v, v.entries.len());
    lemma_moved_up_times(v, v.entries.len());
    assert((v.highlight + n) % n == v.highlight) by (nonlinear_arith)
        requires
            0 <= v.highlight < n,
    ;
    assert(((v.highlight - n) % n + n) % n == v.highlight) by (nonlinear_arith)
        requires
            0 <= v.highlight < n,
    ;
}

/// A step up undoes a step down and a step down undoes a step up.
pub proof fn lemma_up_down_inverse(v: SelectionView)
    requires
        v.wf(),
    ensures
        v.moved_up().wf(),
        v.moved_down().wf(),
        v.moved_up().moved_down() == v,
        v.moved_down().moved_up() == v,
{
}

/// Navigation never changes the entries nor which entry is marked as
/// configured, and at most one entry is marked.
pub proof fn lemma_navigation_keeps_configured(v: SelectionView, k: nat)
    requires
        v.wf(),
    ensures
        v.moved_up_times(k).entries == v.entries,
        v.moved_up_times(k).current == v.current,
        v.moved_down_times(k).entries == v.entries,
        v.moved_down_times(k).current == v.current,
        forall|i: int, j: int| v.is_marked(i) && v.is_marked(j) ==> i == j,
{
    lemma_moved_up_times(v, k);
    lemma_moved_down_times(v, k);
}

/// Whether some entry of `entries` carries the identifier `id`.
pub open spec fn has_identifier(entries: Seq<KeyRecord>, id: Seq<char>) -> bool {
    exists|i: int| 0 <= i < entries.len() && #[trigger] entries[i].identifier@ == id
}

/// Whether `i` is the first position in `entries` whose identifier is `id`.
pub open spec fn is_first_with_identifier(entries: Seq<KeyRecord>, id: Seq<char>, i: int) -> bool {
    &&& 0 <= i < entries.len()
    &&& entries[i].identifier@ == id
    &&& forall|j: int| 0 <= j < i ==> #[trigger] entries[j].identifier@ != id
}

/// The state of one selection session. The entries never change once the
/// session starts; navigation moves only the cursor.
pub struct SelectionState {
    entries: Vec<KeyRecord>,
    current_index: Option<usize>,
    highlight_index: usize,
}

impl SelectionState {
    /// The abstract value of this selection.
    pub closed spec fn view(&self) -> SelectionView {
        SelectionView {
            entries: self.entries@,
            current: match self.current_index {
                Some(c) => Some(c as int),
                None => None,
            },
            highlight: self.highlight_index as int,
        }
    }

    /// The cursor is on an entry and the configured entry, if any, is one.
    pub open spec fn wf(&self) -> bool {
        self.view().wf()
    }

    /// Starts a session over `entries`. The configured entry is the first one
    /// whose identifier equals `current`; the cursor starts on it, or on the
    /// first entry when there is none.
    pub fn initialize(entries: Vec<KeyRecord>, current: Option<String>) -> (r: Result<
        SelectionState,
        SelectionError,
    >)
        ensures
            entries@.len() == 0 <==> r is Err,
            r matches Err(e) ==> e == SelectionError::EmptyInput,
            r matches Ok(s) ==> {
                &&& s.wf()
                &&& s.view().entries == entries@
                &&& (s.view().current is Some <==> (current matches Some(id) && has_identifier(
                    entries@,
                    id@,
                )))
                &&& (s.view().current matches Some(c) ==> is_first_with_identifier(
                    entries@,
                    current->0@,
                    c,
                ))
                &&& s.view().highlight == match s.view().current {
                    Some(c) => c,
                    None => 0,
                }
            },
    {
        if entries.len() == 0 {
            return Err(SelectionError::EmptyInput);
        }
        let mut current_index: Option<usize> = None;
        if let Some(id) = &current {
            let mut i: usize = 0;
            while i < entries.len()
                invariant_except_break
                    current_index is None,
                invariant
                    0 <= i <= entries@.len(),
                    forall|j: int| 0 <= j < i ==> #[trigger] entries@[j].identifier@ != id@,
                ensures
                    current_index matches Some(c) ==> is_first_with_identifier(
                        entries@,
                        id@,
                        c as int,
                    ),
                    current_index is None ==> forall|k: int|
                        0 <= k < entries@.len() ==> #[trigger] entries@[k].identifier@ != id@,
                decreases entries@.len() - i,
            {
                if entries[i].identifier == *id {
                    current_index = Some(i);
                    break;
                }
                i = i + 1;
            }
        }
        let highlight_index: usize = match current_index {
            Some(c) => c,
            None => 0,
        };
        Ok(SelectionState { entries, current_index, highlight_index })
    }

    /// Moves the cursor up one entry, from the first entry to the last.
    pub fn move_up(&mut self)
        requires
            old(self).wf(),
        ensures
            final(self).wf(),
            final(self).view() == old(self).view().moved_up(),
    {
        if self.highlight_index == 0 {
            self.highlight_index = self.entries.len() - 1;
        } else {
            self.highlight_index = self.highlight_index - 1;
        }
    }

    /// Moves the cursor down one entry, from the last entry to the first.
    pub fn move_down(&mut self)
        requires
            old(self).wf(),
        ensures
            final(self).wf(),
            final(self).view() == old(self).view().moved_down(),
    {
        if self.highlight_index >= self.entries.len() - 1 {
            self.highlight_index = 0;
        } else {
            self.highlight_index = self.highlight_index + 1;
        }
    }

    /// The entry under the cursor.
    pub fn current_highlight(&self) -> (r: &KeyRecord)
        requires
            self.wf(),
        ensures
            *r == self.view().entries[self.view().highlight],
    {
        &self.entries[self.highlight_index]
    }

    /// Whether the entry at `index` is the one marked as currently configured.
    pub fn is_currently_configured(&self, index: usize) -> (r: bool)
        ensures
            r == self.view().is_marked(index as int),
    {
        match self.current_index {
            Some(c) => c == index,
            None => false,
        }
    }

    /// The position of the cursor.
    pub fn highlight_index(&self) -> (r: usize)
        ensures
            r == self.view().highlight,
    {
        self.highlight_index
    }

    /// The position of the configured entry, if any.
    pub fn current_index(&self) -> (r: Option<usize>)
        ensures
            r matches Some(c) ==> self.view().current == Some(c as int),
            r is None ==> self.view().current is None,
    {
        self.current_index
    }

    /// The number of entries.
    pub fn len(&self) -> (r: usize)
        ensures
            r == self.view().entries.len(),
    {
        self.entries.len()
    }

    /// The entry at `index`.
    pub fn entry(&self, index: usize) -> (r: &KeyRecord)
        requires
            index < self.view().entries.len(),
        ensures
            *r == self.view().entries[index as int],
    {
        &self.entries[index]
    }
}

} // verus!

//! Texture selection: the textures seen while selecting, the one currently
//! selected, the stages it is bound on, and the snapshot window.

use vstd::prelude::*;
use fnv::FnvHashSet;

verus! {

/// The number of texture stages tracked.
pub const MAX_STAGE: usize = 16;

/// How long a snapshot window stays open, in milliseconds.
pub const SNAP_MS: u64 = 250;

/// The set of texture handles seen, held in an `FnvHashSet`.
#[verifier::external_body]
pub struct TextureSet {
    set: FnvHashSet<u64>,
}

/// What a `TextureSet` holds.
pub uninterp spec fn textures_in(t: TextureSet) -> Set<u64>;

impl TextureSet {
    /// Relies on `FnvHashSet::default`: a new set is empty.
    #[verifier::external_body]
    pub(crate) fn new() -> (r: TextureSet)
        ensures
            textures_in(r) == Set::<u64>::empty(),
    {
        TextureSet { set: FnvHashSet::default() }
    }

    /// Relies on `HashSet::contains` (on the fnv-hashed set).
    #[verifier::external_body]
    pub(crate) fn contains(&self, t: u64) -> (r: bool)
        ensures
            r == textures_in(*self).contains(t),
    {
        self.set.contains(&t)
    }

    /// Relies on `HashSet::insert`: the handle is in the set afterwards.
    #[verifier::external_body]
    pub(crate) fn insert(&mut self, t: u64)
        ensures
            textures_in(*final(self)) == textures_in(*old(self)).insert(t),
    {
        self.set.insert(t);
    }

}

/// Selection state. Handles are opaque; zero is the null texture.
pub struct SelectionState {
    pub making_selection: bool,
    pub active_texture_list: Vec<u64>,
    pub active_texture_set: TextureSet,
    pub curr_texture_index: usize,
    pub selected_on_stage: [bool; 16],
}

/// The handle at the selection index, or zero when the index is past the end.
pub open spec fn spec_current_texture(list: Seq<u64>, idx: usize) -> u64 {
    if idx < list.len() {
        list[idx as int]
    } else {
        0
    }
}

/// The selection index after moving forward in a list of `len` textures,
/// wrapping at the end.
pub open spec fn next_index(idx: usize, len: nat) -> int {
    if len == 0 {
        0
    } else if idx + 1 >= len {
        0
    } else {
        idx + 1
    }
}

/// The selection index after moving back in a list of `len` textures,
/// wrapping at the start.
pub open spec fn prev_index(idx: usize, len: nat) -> int {
    if len == 0 {
        0
    } else if idx == 0 {
        len - 1
    } else {
        idx - 1
    }
}

impl SelectionState {
    /// The invariant: the list and the set hold the same handles, each once,
    /// and the index is inside the list whenever the list is not empty.
    pub open spec fn wf(&self) -> bool {
        &&& self.active_texture_list@.no_duplicates()
        &&& self.active_texture_list@.to_set() == textures_in(self.active_texture_set)
        &&& self.active_texture_list@.len() > 0 ==> self.curr_texture_index
            < self.active_texture_list@.len()
        &&& self.active_texture_list@.len() == 0 ==> self.curr_texture_index == 0
    }

    /// Not selecting, nothing seen.
    pub open spec fn is_reset(&self) -> bool {
        &&& !self.making_selection
        &&& self.active_texture_list@.len() == 0
        &&& self.curr_texture_index == 0
        &&& forall|s: int| 0 <= s < MAX_STAGE ==> !self.selected_on_stage@[s]
    }

    pub fn new() -> (r: SelectionState)
        ensures
            r.wf(),
            r.is_reset(),
    {
        let r = SelectionState {
            making_selection: false,
            active_texture_list: Vec::new(),
            active_texture_set: TextureSet::new(),
            curr_texture_index: 0,
            selected_on_stage: [false; 16],
        };
        assert(r.active_texture_list@.to_set() =~= Set::<u64>::empty());
        r
    }

    /// Enters selection mode with empty lists.
    pub fn init_selection_mode(&mut self)
        ensures
            final(self).wf(),
            final(self).making_selection,
            final(self).active_texture_list@.len() == 0,
            final(self).curr_texture_index == 0,
            final(self).selected_on_stage == old(self).selected_on_stage,
    {
        self.making_selection = true;
        self.active_texture_list = Vec::new();
        self.active_texture_set = TextureSet::new();
        self.curr_texture_index = 0;
        assert(self.active_texture_list@.to_set() =~= Set::<u64>::empty());
    }

    /// Whether `tex` was seen while selecting.
    pub fn has_seen(&self, tex: u64) -> (r: bool)
        requires
            self.wf(),
        ensures
            r == self.active_texture_list@.contains(tex),
    {
        let r = self.active_texture_set.contains(tex);
        proof {
            assert(self.active_texture_list@.to_set().contains(tex) == self.active_texture_list@.contains(tex));
        }
        r
    }

    /// The selected texture: the handle at the index, or zero.
    pub fn get_current_texture(&self) -> (r: u64)
        ensures
            r == spec_current_texture(self.active_texture_list@, self.curr_texture_index),
    {
        if self.curr_texture_index < self.active_texture_list.len() {
            self.active_texture_list[self.curr_texture_index]
        } else {
            0
        }
    }

    /// The lowest stage on which the selected texture is bound, if any.
    pub fn get_selected_texture_stage(&self) -> (r: Option<u32>)
        ensures
            match r {
                Some(s) => s < MAX_STAGE && self.selected_on_stage@[s as int] && forall|t: int|
                    0 <= t < s ==> !self.selected_on_stage@[t],
                None => forall|t: int| 0 <= t < MAX_STAGE ==> !self.selected_on_stage@[t],
            },
    {
        let mut i: usize = 0;
        while i < MAX_STAGE
            invariant
                i <= MAX_STAGE,
                forall|t: int| 0 <= t < i ==> !self.selected_on_stage@[t],
            decreases MAX_STAGE - i,
        {
            if self.selected_on_stage[i] {
                return Some(i as u32);
            }
            i = i + 1;
        }
        None
    }

    /// Notes that `tex` was bound on `stage`: while selecting, a texture not
    /// seen before joins the list; the stage is marked exactly when it now
    /// holds the selected (non-null) texture.
    pub fn track_set_texture(&mut self, tex: u64, stage: u32)
        requires
            old(self).wf(),
        ensures
            final(self).wf(),
            final(self).making_selection == old(self).making_selection,
            final(self).curr_texture_index == old(self).curr_texture_index,
            final(self).active_texture_list@ == (if old(self).making_selection
                && !old(self).active_texture_list@.contains(tex) {
                old(self).active_texture_list@.push(tex)
            } else {
                old(self).active_texture_list@
            }),
            final(self).selected_on_stage@ == (if stage < MAX_STAGE {
                old(self).selected_on_stage@.update(
                    stage as int,
                    ({
                        let cur = spec_current_texture(
                            final(self).active_texture_list@,
                            final(self).curr_texture_index,
                        );
                        cur != 0 && tex == cur
                    }),
                )
            } else {
                old(self).selected_on_stage@
            }),
    {
        if self.making_selection && !self.active_texture_set.contains(tex) {
            proof {
                assert(!self.active_texture_list@.contains(tex)) by {
                    if self.active_texture_list@.contains(tex) {
                        assert(self.active_texture_list@.to_set().contains(tex));
                    }
                }
            }
            self.active_texture_set.insert(tex);
            let ghost before = self.active_texture_list@;
            self.active_texture_list.push(tex);
            proof {
                before.lemma_push_to_set_commute(tex);
                assert(self.active_texture_list@.to_set() =~= before.to_set().insert(tex));
            }
        } else {
            proof {
                if self.making_selection {
                    assert(self.active_texture_list@.to_set().contains(tex));
                    assert(self.active_texture_list@.contains(tex));
                }
            }
        }
        if (stage as usize) < MAX_STAGE {
            let curr = self.get_current_texture();
            self.selected_on_stage[stage as usize] = curr != 0 && tex == curr;
        }
    }

    /// Advances the selection to the next texture, wrapping at the end;
    /// enters selection mode first when not selecting.
    pub fn select_next_texture(&mut self)
        requires
            old(self).wf(),
        ensures
            final(self).wf(),
            final(self).making_selection,
            old(self).making_selection ==> final(self).active_texture_list@
                == old(self).active_texture_list@,
            !old(self).making_selection ==> final(self).active_texture_list@.len() == 0,
            final(self).curr_texture_index == (if final(self).active_texture_list@.len() == 0 {
                0
            } else if old(self).curr_texture_index + 1 >= final(self).active_texture_list@.len() {
                0
            } else {
                old(self).curr_texture_index + 1
            }),
    {
        if !self.making_selection {
            self.init_selection_mode();
        }
        let len = self.active_texture_list.len();
        if len == 0 {
            return;
        }
        if self.curr_texture_index + 1 >= len {
            self.curr_texture_index = 0;
        } else {
            self.curr_texture_index = self.curr_texture_index + 1;
        }
    }

    /// Moves the selection to the previous texture, wrapping at the start;
    /// enters selection mode first when not selecting.
    pub fn select_prev_texture(&mut self)
        requires
            old(self).wf(),
        ensures
            final(self).wf(),
            final(self).making_selection,
            old(self).making_selection ==> final(self).active_texture_list@
                == old(self).active_texture_list@,
            !old(self).making_selection ==> final(self).active_texture_list@.len() == 0,
            final(self).curr_texture_index == (if final(self).active_texture_list@.len() == 0 {
                0
            } else if old(self).curr_texture_index == 0 {
                (final(self).active_texture_list@.len() - 1) as int
            } else {
                old(self).curr_texture_index - 1
            }),
    {
        if !self.making_selection {
            self.init_selection_mode();
        }
        let len = self.active_texture_list.len();
        if len == 0 {
            return;
        }
        if self.curr_texture_index == 0 {
            self.curr_texture_index = len - 1;
        } else {
            self.curr_texture_index = self.curr_texture_index - 1;
        }
    }

    /// Leaves selection mode and forgets every texture seen.
    pub fn clear_texture_lists(&mut self)
        ensures
            final(self).wf(),
            final(self).is_reset(),
    {
        self.active_texture_list = Vec::new();
        self.active_texture_set = TextureSet::new();
        self.curr_texture_index = 0;
        let mut i: usize = 0;
        while i < MAX_STAGE
            invariant
                i <= MAX_STAGE,
                forall|t: int| 0 <= t < i ==> !self.selected_on_stage@[t],
                self.active_texture_list@.len() == 0,
                textures_in(self.active_texture_set) == Set::<u64>::empty(),
                self.curr_texture_index == 0,
            decreases MAX_STAGE - i,
        {
            self.selected_on_stage[i] = false;
            i = i + 1;
        }
        self.making_selection = false;
        assert(self.active_texture_list@.to_set() =~= Set::<u64>::empty()) by {
            assert(self.active_texture_list@ =~= Seq::<u64>::empty());
        }
    }
}

/// Whatever sequence of selection operations ran, the list and the set agree
/// and hold each texture once.
pub proof fn lemma_selection_list_unique(sel: SelectionState)
    requires
        sel.wf(),
    ensures
        sel.active_texture_list@.no_duplicates(),
        forall|t: u64|
            sel.active_texture_list@.contains(t) <==> textures_in(sel.active_texture_set).contains(t),
{
    assert forall|t: u64|
        sel.active_texture_list@.contains(t) <==> textures_in(sel.active_texture_set).contains(
            t,
        ) by {
        assert(sel.active_texture_list@.to_set().contains(t) == sel.active_texture_list@.contains(t));
    }
}

/// The selection index stays inside a non-empty list.
pub proof fn lemma_selection_index_in_range(sel: SelectionState)
    requires
        sel.wf(),
        sel.active_texture_list@.len() > 0,
    ensures
        sel.curr_texture_index < sel.active_texture_list@.len(),
{
}

/// The snapshot window.
pub struct SnapshotState {
    pub is_snapping: bool,
    pub snap_start_ms: u64,
}

impl SnapshotState {
    pub fn new() -> (r: SnapshotState)
        ensures
            !r.is_snapping,
    {
        SnapshotState { is_snapping: false, snap_start_ms: 0 }
    }

    /// Opens the window at `now_ms`; does nothing while a window is open.
    pub fn take_snapshot(&mut self, now_ms: u64)
        ensures
            final(self).is_snapping,
            final(self).snap_start_ms == (if old(self).is_snapping {
                old(self).snap_start_ms
            } else {
                now_ms
            }),
    {
        if self.is_snapping {
            return;
        }
        self.is_snapping = true;
        self.snap_start_ms = now_ms;
    }

    /// Closes the window once `SNAP_MS` have passed since it opened (or the
    /// clock reads earlier than the start).
    pub fn tick(&mut self, now_ms: u64)
        ensures
            final(self).snap_start_ms == old(self).snap_start_ms,
            final(self).is_snapping == (old(self).is_snapping && now_ms >= old(self).snap_start_ms
                && now_ms - old(self).snap_start_ms < SNAP_MS),
    {
        if self.is_snapping {
            if now_ms < self.snap_start_ms || now_ms - self.snap_start_ms >= SNAP_MS {
                self.is_snapping = false;
            }
        }
    }
}

/// The selection texture's side, in texels.
pub const SELECTION_TEXTURE_SIZE: usize = 256;

/// The selection texture's colour: opaque green.
pub const SELECTION_COLOR: u32 = 0xFF00FF00;

/// The texels of the selection texture: every one opaque green.
pub fn selection_texels() -> (r: Vec<u32>)
    ensures
        r@.len() == SELECTION_TEXTURE_SIZE * SELECTION_TEXTURE_SIZE,
        forall|i: int| 0 <= i < r@.len() ==> r@[i] == SELECTION_COLOR,
{
    let n: usize = SELECTION_TEXTURE_SIZE * SELECTION_TEXTURE_SIZE;
    let mut r: Vec<u32> = Vec::new();
    while r.len() < n
        invariant
            r@.len() <= n,
            n == SELECTION_TEXTURE_SIZE * SELECTION_TEXTURE_SIZE,
            forall|i: int| 0 <= i < r@.len() ==> r@[i] == SELECTION_COLOR,
        decreases n - r@.len(),
    {
        r.push(SELECTION_COLOR);
    }
    r
}

} // verus!

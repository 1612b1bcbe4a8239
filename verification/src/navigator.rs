use vstd::prelude::*;
use crate::grid::{Image, Ternary};

verus! {

/// One editing command consumed by the navigator.
#[derive(Clone, Copy, Debug, PartialEq, Eq, Structural)]
pub enum Command {
    MoveLeft,
    MoveRight,
    MoveUp,
    MoveDown,
    Home,
    ToggleDirection,
    ToggleSettingMode,
    SetCurrent(Ternary),
    PaintRun(u32),
}

/// The mathematical state of one editing session: grid dimensions and
/// contents plus cursor position, paint value and paint direction.
pub struct NavModel {
    pub w: int,
    pub h: int,
    pub cells: Seq<Ternary>,
    pub x: int,
    pub y: int,
    pub setting_mode: bool,
    pub going_right: bool,
}

impl NavModel {
    /// The session invariant: a non-empty grid whose cell sequence has the
    /// right length, with the cursor inside the grid.
    pub open spec fn wf(self) -> bool {
        &&& self.w >= 1
        &&& self.h >= 1
        &&& self.cells.len() == self.w * self.h
        &&& 0 <= self.x < self.w
        &&& 0 <= self.y < self.h
    }
}

/// One serpentine (boustrophedon) cursor advance. Moving rightward: step
/// right if possible, else flip to leftward and descend one row unless
/// already on the last row. Mirrored when moving leftward.
pub open spec fn serp_next(w: int, h: int, x: int, y: int, going_right: bool) -> (int, int, bool) {
    if going_right {
        if x < w - 1 {
            (x + 1, y, true)
        } else if y < h - 1 {
            (x, y + 1, false)
        } else {
            (x, y, false)
        }
    } else {
        if x > 0 {
            (x - 1, y, false)
        } else if y < h - 1 {
            (x, y + 1, true)
        } else {
            (x, y, true)
        }
    }
}

/// `n` serpentine advances in a row, touching no cell.
pub open spec fn serp_iter(w: int, h: int, x: int, y: int, going_right: bool, n: nat) -> (
    int,
    int,
    bool,
)
    decreases n,
{
    if n == 0 {
        (x, y, going_right)
    } else {
        let step = serp_next(w, h, x, y, going_right);
        serp_iter(w, h, step.0, step.1, step.2, (n - 1) as nat)
    }
}

/// A bulk paint run of length `n`: write the paint value at the cursor,
/// advance one serpentine step, `n` times over. The paint value itself is
/// not flipped here; the `PaintRun` transition flips it after the run.
pub open spec fn run_paint(s: NavModel, n: nat) -> NavModel
    decreases n,
{
    if n == 0 {
        s
    } else {
        let value = if s.setting_mode {
            Ternary::True
        } else {
            Ternary::False
        };
        let written = NavModel { cells: s.cells.update(s.y * s.w + s.x, value), ..s };
        let step = serp_next(s.w, s.h, s.x, s.y, s.going_right);
        let moved = NavModel { x: step.0, y: step.1, going_right: step.2, ..written };
        run_paint(moved, (n - 1) as nat)
    }
}

/// The complete command semantics: every command is a deterministic,
/// total transition over the session state.
pub open spec fn transition(s: NavModel, cmd: Command) -> NavModel {
    match cmd {
        Command::MoveLeft => NavModel {
            x: if s.x > 0 {
                s.x - 1
            } else {
                s.x
            },
            ..s
        },
        Command::MoveRight => NavModel {
            x: if s.x < s.w - 1 {
                s.x + 1
            } else {
                s.x
            },
            ..s
        },
        Command::MoveUp => NavModel {
            y: if s.y > 0 {
                s.y - 1
            } else {
                s.y
            },
            ..s
        },
        Command::MoveDown => NavModel {
            y: if s.y < s.h - 1 {
                s.y + 1
            } else {
                s.y
            },
            ..s
        },
        Command::Home => NavModel { x: 0, y: 0, ..s },
        Command::ToggleDirection => NavModel { going_right: !s.going_right, ..s },
        Command::ToggleSettingMode => NavModel { setting_mode: !s.setting_mode, ..s },
        Command::SetCurrent(v) => NavModel { cells: s.cells.update(s.y * s.w + s.x, v), ..s },
        Command::PaintRun(n) => {
            let after = run_paint(s, n as nat);
            NavModel { setting_mode: !after.setting_mode, ..after }
        },
    }
}

/// The cursor/paint state of an interactive editing session over one grid.
pub struct UiState {
    pub image: Image,
    pub x: u32,
    pub y: u32,
    pub setting_mode: bool,
    pub going_right: bool,
}

impl UiState {
    pub open spec fn wf(self) -> bool {
        &&& self.image.wf()
        &&& self.image.width >= 1
        &&& self.image.height >= 1
        &&& self.x < self.image.width
        &&& self.y < self.image.height
    }

    /// The session state this value stands for.
    pub open spec fn model(self) -> NavModel {
        NavModel {
            w: self.image.width as int,
            h: self.image.height as int,
            cells: self.image.pixels@,
            x: self.x as int,
            y: self.y as int,
            setting_mode: self.setting_mode,
            going_right: self.going_right,
        }
    }

    /// A fresh session on `image`: cursor at the origin, moving rightward,
    /// paint value false.
    pub fn new(image: Image) -> (r: Self)
        requires
            image.wf(),
            image.width >= 1,
            image.height >= 1,
        ensures
            r.wf(),
            r.image == image,
            r.x == 0,
            r.y == 0,
            !r.setting_mode,
            r.going_right,
    {
        UiState { image, x: 0, y: 0, setting_mode: false, going_right: true }
    }

    /// Applies one command; the new state is exactly `transition` of the old.
    pub fn apply_command(&mut self, cmd: Command)
        requires
            old(self).wf(),
        ensures
            final(self).wf(),
            final(self).model() == transition(old(self).model(), cmd),
    {
        match cmd {
            Command::MoveLeft => {
                if self.x > 0 {
                    self.x = self.x - 1;
                }
            },
            Command::MoveRight => {
                if self.x < self.image.width - 1 {
                    self.x = self.x + 1;
                }
            },
            Command::MoveUp => {
                if self.y > 0 {
                    self.y = self.y - 1;
                }
            },
            Command::MoveDown => {
                if self.y < self.image.height - 1 {
                    self.y = self.y + 1;
                }
            },
            Command::Home => {
                self.x = 0;
                self.y = 0;
            },
            Command::ToggleDirection => {
                self.going_right = !self.going_right;
            },
            Command::ToggleSettingMode => {
                self.setting_mode = !self.setting_mode;
            },
            Command::SetCurrent(v) => {
                let _ = self.image.set(self.x, self.y, v);
            },
            Command::PaintRun(n) => {
                self.paint_run(n);
            },
        }
    }

    /// The bulk paint run, followed by the paint-value flip.
    fn paint_run(&mut self, n: u32)
        requires
            old(self).wf(),
        ensures
            final(self).wf(),
            final(self).model() == transition(old(self).model(), Command::PaintRun(n)),
    {
        let ghost m0 = self.model();
        let mut i: u32 = 0;
        while i < n
            invariant
                self.wf(),
                i <= n,
                run_paint(m0, n as nat) == run_paint(self.model(), (n - i) as nat),
            decreases n - i,
        {
            let ghost pre = self.model();
            let value = if self.setting_mode {
                Ternary::True
            } else {
                Ternary::False
            };
            let _ = self.image.set(self.x, self.y, value);
            if self.going_right {
                if self.x < self.image.width - 1 {
                    self.x = self.x + 1;
                } else {
                    self.going_right = false;
                    if self.y < self.image.height - 1 {
                        self.y = self.y + 1;
                    }
                }
            } else {
                if self.x > 0 {
                    self.x = self.x - 1;
                } else {
                    self.going_right = true;
                    if self.y < self.image.height - 1 {
                        self.y = self.y + 1;
                    }
                }
            }
            proof {
                let written = NavModel {
                    cells: pre.cells.update(pre.y * pre.w + pre.x, value),
                    ..pre
                };
                let step = serp_next(pre.w, pre.h, pre.x, pre.y, pre.going_right);
                let moved = NavModel { x: step.0, y: step.1, going_right: step.2, ..written };
                assert(self.model() == moved);
                assert(run_paint(pre, (n - i) as nat) == run_paint(moved, (n - i - 1) as nat));
            }
            i = i + 1;
        }
        self.setting_mode = !self.setting_mode;
        proof {
            let after = run_paint(m0, n as nat);
            assert(self.model() == NavModel { setting_mode: !after.setting_mode, ..after });
        }
    }
}

/// A whole command history applied in order, oldest first.
pub open spec fn transition_all(s: NavModel, cmds: Seq<Command>) -> NavModel
    decreases cmds.len(),
{
    if cmds.len() == 0 {
        s
    } else {
        transition_all(transition(s, cmds[0]), cmds.subrange(1, cmds.len() as int))
    }
}

/// Every reachable session state is well-formed: whatever command history
/// runs from a well-formed state, the cursor stays inside the grid.
pub proof fn lemma_reachable_states_wf(s: NavModel, cmds: Seq<Command>)
    requires
        s.wf(),
    ensures
        transition_all(s, cmds).wf(),
    decreases cmds.len(),
{
    if cmds.len() > 0 {
        lemma_transition_preserves_wf(s, cmds[0]);
        lemma_reachable_states_wf(transition(s, cmds[0]), cmds.subrange(1, cmds.len() as int));
    }
}

/// Every command keeps the session well-formed; in particular the cursor
/// stays inside the grid after every transition from a reachable state.
pub proof fn lemma_transition_preserves_wf(s: NavModel, cmd: Command)
    requires
        s.wf(),
    ensures
        transition(s, cmd).wf(),
{
    crate::grid::lemma_cell_index(s.x, s.y, s.w, s.h);
    match cmd {
        Command::PaintRun(n) => {
            lemma_run_paint_preserves_wf(s, n as nat);
            lemma_run_paint_keeps_flags(s, n as nat);
        },
        _ => {},
    }
}

/// A paint run keeps the session well-formed.
pub proof fn lemma_run_paint_preserves_wf(s: NavModel, n: nat)
    requires
        s.wf(),
    ensures
        run_paint(s, n).wf(),
    decreases n,
{
    if n > 0 {
        crate::grid::lemma_cell_index(s.x, s.y, s.w, s.h);
        let value = if s.setting_mode {
            Ternary::True
        } else {
            Ternary::False
        };
        let written = NavModel { cells: s.cells.update(s.y * s.w + s.x, value), ..s };
        let step = serp_next(s.w, s.h, s.x, s.y, s.going_right);
        let moved = NavModel { x: step.0, y: step.1, going_right: step.2, ..written };
        lemma_run_paint_preserves_wf(moved, (n - 1) as nat);
    }
}

/// A paint run never touches the paint value or the grid dimensions.
pub proof fn lemma_run_paint_keeps_flags(s: NavModel, n: nat)
    ensures
        run_paint(s, n).setting_mode == s.setting_mode,
        run_paint(s, n).w == s.w,
        run_paint(s, n).h == s.h,
    decreases n,
{
    if n > 0 {
        let value = if s.setting_mode {
            Ternary::True
        } else {
            Ternary::False
        };
        let written = NavModel { cells: s.cells.update(s.y * s.w + s.x, value), ..s };
        let step = serp_next(s.w, s.h, s.x, s.y, s.going_right);
        let moved = NavModel { x: step.0, y: step.1, going_right: step.2, ..written };
        lemma_run_paint_keeps_flags(moved, (n - 1) as nat);
    }
}

/// Paint runs are deterministic: identical starting states and run lengths
/// give identical resulting states.
pub proof fn lemma_paint_run_deterministic(s1: NavModel, s2: NavModel, n: u32)
    requires
        s1 == s2,
    ensures
        transition(s1, Command::PaintRun(n)) == transition(s2, Command::PaintRun(n)),
{
}

/// After any paint run, of any length including zero, the paint value is
/// the negation of its prior value.
pub proof fn lemma_paint_run_flips_mode(s: NavModel, n: u32)
    ensures
        transition(s, Command::PaintRun(n)).setting_mode == !s.setting_mode,
{
    lemma_run_paint_keeps_flags(s, n as nat);
}

/// At the right edge with rows still below, one rightward serpentine step
/// flips the direction to leftward and moves the cursor down one row.
pub proof fn lemma_serpentine_boundary(w: int, h: int, y: int)
    requires
        w >= 1,
        0 <= y < h - 1,
    ensures
        serp_next(w, h, w - 1, y, true) == (w - 1, y + 1, false),
{
}

/// A rightward serpentine step from the bottom-right corner leaves the
/// cursor in place: there is no further row to descend to.
pub proof fn lemma_serpentine_corner_stays(w: int, h: int)
    requires
        w >= 1,
        h >= 1,
    ensures
        serp_next(w, h, w - 1, h - 1, true).0 == w - 1,
        serp_next(w, h, w - 1, h - 1, true).1 == h - 1,
{
}

/// In a single-column grid, once the cursor sits on the bottom cell, any
/// number of further serpentine steps leaves it there. (In a wider grid
/// this is not so: the first corner step flips the direction, and later
/// steps walk back along the last row.)
pub proof fn lemma_serpentine_saturation(h: int, going_right: bool, n: nat)
    requires
        h >= 1,
    ensures
        serp_iter(1, h, 0, h - 1, going_right, n).0 == 0,
        serp_iter(1, h, 0, h - 1, going_right, n).1 == h - 1,
    decreases n,
{
    if n > 0 {
        let step = serp_next(1, h, 0, h - 1, going_right);
        lemma_serpentine_saturation(h, step.2, (n - 1) as nat);
    }
}

} // verus!

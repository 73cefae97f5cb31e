//! Draw commands: what a window tells the renderer, and the queue in which
//! the commands wait for it.

use vstd::prelude::*;

use crate::fragment::{fragments_view, LineFragment, LineFragmentView};

verus! {

/// A real-valued screen quantity, carried as the bit pattern of its
/// double-precision encoding. Windows store and forward such values and never
/// compute with them.
#[derive(Clone, Copy, Debug, PartialEq, Eq, Structural)]
pub struct Real {
    pub bits: u64,
}

/// A command to the renderer about one window.
#[derive(Debug, PartialEq, Eq)]
pub enum WindowDrawCommand {
    Position { grid_position: (Real, Real), grid_size: (u64, u64), floating_order: Option<u64> },
    DrawLine(Vec<LineFragment>),
    Scroll { top: u64, bottom: u64, left: u64, right: u64, rows: i64, cols: i64 },
    Clear,
    Show,
    Hide,
    Close,
    Viewport { scroll_delta: Real },
}

/// What a window command holds, as mathematical values.
pub enum WindowDrawCommandView {
    Position { grid_position: (Real, Real), grid_size: (u64, u64), floating_order: Option<u64> },
    DrawLine(Seq<LineFragmentView>),
    Scroll { top: u64, bottom: u64, left: u64, right: u64, rows: i64, cols: i64 },
    Clear,
    Show,
    Hide,
    Close,
    Viewport { scroll_delta: Real },
}

impl View for WindowDrawCommand {
    type V = WindowDrawCommandView;

    open spec fn view(&self) -> WindowDrawCommandView {
        match *self {
            WindowDrawCommand::Position {
                grid_position,
                grid_size,
                floating_order,
            } => WindowDrawCommandView::Position { grid_position, grid_size, floating_order },
            WindowDrawCommand::DrawLine(fragments) => WindowDrawCommandView::DrawLine(
                fragments_view(fragments@),
            ),
            WindowDrawCommand::Scroll {
                top,
                bottom,
                left,
                right,
                rows,
                cols,
            } => WindowDrawCommandView::Scroll { top, bottom, left, right, rows, cols },
            WindowDrawCommand::Clear => WindowDrawCommandView::Clear,
            WindowDrawCommand::Show => WindowDrawCommandView::Show,
            WindowDrawCommand::Hide => WindowDrawCommandView::Hide,
            WindowDrawCommand::Close => WindowDrawCommandView::Close,
            WindowDrawCommand::Viewport { scroll_delta } => WindowDrawCommandView::Viewport {
                scroll_delta,
            },
        }
    }
}

/// A command to the renderer, tagged with the window it is about.
#[derive(Debug, PartialEq, Eq)]
pub enum DrawCommand {
    Window { grid_id: u64, command: WindowDrawCommand },
}

/// What a tagged command holds, as mathematical values.
pub struct DrawCommandView {
    pub grid_id: u64,
    pub command: WindowDrawCommandView,
}

impl View for DrawCommand {
    type V = DrawCommandView;

    open spec fn view(&self) -> DrawCommandView {
        match *self {
            DrawCommand::Window { grid_id, command } => DrawCommandView {
                grid_id,
                command: command@,
            },
        }
    }
}

/// The command `command` about window `grid_id`.
pub open spec fn tagged(grid_id: u64, command: WindowDrawCommandView) -> DrawCommandView {
    DrawCommandView { grid_id, command }
}

/// What a list of commands holds, command by command.
pub open spec fn commands_view(commands: Seq<DrawCommand>) -> Seq<DrawCommandView> {
    Seq::new(commands.len(), |i: int| commands[i]@)
}

/// The queue in which draw commands wait, oldest first, until the renderer
/// takes them.
pub struct DrawCommandBatcher {
    pending: Vec<DrawCommand>,
}

impl View for DrawCommandBatcher {
    type V = Seq<DrawCommandView>;

    closed spec fn view(&self) -> Seq<DrawCommandView> {
        commands_view(self.pending@)
    }
}

impl DrawCommandBatcher {
    /// An empty queue.
    pub fn new() -> (batcher: DrawCommandBatcher)
        ensures
            batcher@ == Seq::<DrawCommandView>::empty(),
    {
        let batcher = DrawCommandBatcher { pending: Vec::new() };
        assert(batcher@ =~= Seq::<DrawCommandView>::empty());
        batcher
    }

    /// Appends a command to the queue.
    pub fn queue(&mut self, draw_command: DrawCommand)
        ensures
            final(self)@ == old(self)@.push(draw_command@),
    {
        self.pending.push(draw_command);
        assert(self@ =~= old(self)@.push(draw_command@));
    }

    /// Takes every waiting command out of the queue, oldest first.
    pub fn take_batch(&mut self) -> (batch: Vec<DrawCommand>)
        ensures
            commands_view(batch@) == old(self)@,
            final(self)@ == Seq::<DrawCommandView>::empty(),
    {
        let mut batch: Vec<DrawCommand> = Vec::new();
        std::mem::swap(&mut self.pending, &mut batch);
        assert(self@ =~= Seq::<DrawCommandView>::empty());
        batch
    }
}

} // verus!

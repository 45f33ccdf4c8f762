//! The snake simulation engine: a fixed-tick state machine over a chain of
//! axis-aligned segments.
//!
//! All geometry lives on a half-cell integer grid. A playground cell is two
//! grid steps wide, the head advances one grid step (half a cell) per tick,
//! and food sits on whole-cell points; every position the snake can reach is
//! therefore an integer, and segment equality is exact. One tick runs, in
//! order: food maintenance, turn application, head advance, tail advance
//! (with removal of spent segments), wraparound across a non-killing
//! boundary, and the loss check. Once lost, the engine stops moving and the
//! key handler switches to nickname entry.

use crate::input::{Key, KeyEvent};
use rand::TryRngCore;
use vstd::prelude::*;

verus! {

/// The axis-aligned compass direction a segment grows in.
#[derive(Clone, Copy, PartialEq, Eq, Structural, Debug)]
pub enum SnakeSegmentDirection {
    Up,
    Down,
    Left,
    Right,
}

/// The horizontal grid step of one tick in direction `d`.
pub open spec fn dir_dx(d: SnakeSegmentDirection) -> int {
    match d {
        SnakeSegmentDirection::Left => -1,
        SnakeSegmentDirection::Right => 1,
        _ => 0,
    }
}

/// The vertical grid step of one tick in direction `d` (`Up` grows `y`).
pub open spec fn dir_dy(d: SnakeSegmentDirection) -> int {
    match d {
        SnakeSegmentDirection::Up => 1,
        SnakeSegmentDirection::Down => -1,
        _ => 0,
    }
}

/// The absolute value of an integer.
pub open spec fn iabs(a: int) -> int {
    if a >= 0 {
        a
    } else {
        -a
    }
}

/// One straight piece of the snake, on the half-cell grid. `(x1, y1)` is
/// the trailing end, `(x2, y2)` the leading end.
#[derive(Clone, Copy, PartialEq, Eq, Structural, Debug)]
pub struct SnakeSegment {
    pub x1: i32,
    pub y1: i32,
    pub x2: i32,
    pub y2: i32,
    pub direction: SnakeSegmentDirection,
}

impl SnakeSegment {
    /// How many grid steps the segment spans.
    pub open spec fn extent(self) -> int {
        iabs(self.x2 - self.x1) + iabs(self.y2 - self.y1)
    }

    /// Both endpoints coincide.
    pub open spec fn degenerate(self) -> bool {
        self.x1 == self.x2 && self.y1 == self.y2
    }

    /// The endpoints differ only along the axis of the direction.
    pub open spec fn axis_ok(self) -> bool {
        match self.direction {
            SnakeSegmentDirection::Left | SnakeSegmentDirection::Right => self.y1 == self.y2,
            SnakeSegmentDirection::Up | SnakeSegmentDirection::Down => self.x1 == self.x2,
        }
    }

    /// The leading end never trails the trailing end along the direction.
    pub open spec fn oriented(self) -> bool {
        match self.direction {
            SnakeSegmentDirection::Left => self.x2 <= self.x1,
            SnakeSegmentDirection::Right => self.x1 <= self.x2,
            SnakeSegmentDirection::Up => self.y1 <= self.y2,
            SnakeSegmentDirection::Down => self.y2 <= self.y1,
        }
    }
}

/// A zero-length segment sitting at one grid point.
pub open spec fn point_segment(x: i32, y: i32, d: SnakeSegmentDirection) -> SnakeSegment {
    SnakeSegment { x1: x, y1: y, x2: x, y2: y, direction: d }
}

/// The play area, in whole cells, with its grid bounds in half-cell
/// coordinates.
#[derive(Clone, Copy, PartialEq, Eq, Structural, Debug)]
pub struct Playground {
    pub x: u16,
    pub y: u16,
    pub width: u16,
    pub height: u16,
}

impl Playground {
    /// The left grid bound.
    pub open spec fn left(self) -> int {
        2 * self.x
    }

    /// The right grid bound.
    pub open spec fn right(self) -> int {
        2 * (self.x + self.width)
    }

    /// The top grid bound (the smaller `y`).
    pub open spec fn top(self) -> int {
        2 * self.y
    }

    /// The bottom grid bound (the larger `y`).
    pub open spec fn bottom(self) -> int {
        2 * (self.y + self.height)
    }

    /// A playground has room to play in.
    pub open spec fn wf(self) -> bool {
        self.width > 0 && self.height > 0
    }

    /// The left grid bound.
    pub fn left_coord(&self) -> (r: i32)
        ensures
            r == self.left(),
    {
        2 * (self.x as i32)
    }

    /// The right grid bound.
    pub fn right_coord(&self) -> (r: i32)
        ensures
            r == self.right(),
    {
        2 * (self.x as i32 + self.width as i32)
    }

    /// The top grid bound.
    pub fn top_coord(&self) -> (r: i32)
        ensures
            r == self.top(),
    {
        2 * (self.y as i32)
    }

    /// The bottom grid bound.
    pub fn bottom_coord(&self) -> (r: i32)
        ensures
            r == self.bottom(),
    {
        2 * (self.y as i32 + self.height as i32)
    }
}

/// The mathematical shape of the snake.
#[verifier::ext_equal]
pub ghost struct SnakeModel {
    /// Head first.
    pub segments: Seq<SnakeSegment>,
    /// The target length, in grid steps.
    pub total_length: u64,
    /// Food points swallowed by the head that the tail has not reached yet.
    pub consumed_food: Seq<(i32, i32)>,
}

/// The snake: an ordered chain of segments (head first), the accumulated
/// target length in grid steps, and the queue of swallowed food points the
/// tail must pass before it may shrink again.
pub struct SnakeState {
    pub segments: std::collections::VecDeque<SnakeSegment>,
    pub total_length: u64,
    pub consumed_food: std::collections::VecDeque<(i32, i32)>,
}

impl View for SnakeState {
    type V = SnakeModel;

    open spec fn view(&self) -> SnakeModel {
        SnakeModel {
            segments: self.segments@,
            total_length: self.total_length,
            consumed_food: self.consumed_food@,
        }
    }
}

/// The summed extent of a segment chain, in grid steps.
pub open spec fn total_extent(segs: Seq<SnakeSegment>) -> int
    decreases segs.len(),
{
    if segs.len() == 0 {
        0
    } else {
        segs[0].extent() + total_extent(segs.drop_first())
    }
}

/// The mathematical shape of the whole game mode.
#[verifier::ext_equal]
pub ghost struct GameModel {
    pub snake: SnakeModel,
    pub new_food: Option<(i32, i32)>,
    pub playground: Playground,
    pub username: Seq<char>,
    pub character_index: int,
    pub lost_flag: bool,
    pub playground_borders_kill: bool,
}

/// What a key press in the game asks for: a turn while playing, or —
/// carrying the entered nickname and the final score — the return to the
/// menu after a loss.
#[derive(Clone, PartialEq, Debug)]
pub enum GameAction {
    DoNothing,
    TurnLeft,
    TurnRight,
    TurnUp,
    TurnDown,
    Pause,
    ReturnToMenu(Vec<char>, u16),
}

/// The direction a turn action asks for, if it is one.
pub open spec fn turn_of(a: GameAction) -> Option<SnakeSegmentDirection> {
    match a {
        GameAction::TurnLeft => Option::Some(SnakeSegmentDirection::Left),
        GameAction::TurnRight => Option::Some(SnakeSegmentDirection::Right),
        GameAction::TurnUp => Option::Some(SnakeSegmentDirection::Up),
        GameAction::TurnDown => Option::Some(SnakeSegmentDirection::Down),
        _ => Option::None,
    }
}

/// The mathematical shape of a game action.
#[verifier::ext_equal]
pub ghost enum GameActionModel {
    DoNothing,
    TurnLeft,
    TurnRight,
    TurnUp,
    TurnDown,
    Pause,
    ReturnToMenu(Seq<char>, u16),
}

impl View for GameAction {
    type V = GameActionModel;

    open spec fn view(&self) -> GameActionModel {
        match self {
            GameAction::DoNothing => GameActionModel::DoNothing,
            GameAction::TurnLeft => GameActionModel::TurnLeft,
            GameAction::TurnRight => GameActionModel::TurnRight,
            GameAction::TurnUp => GameActionModel::TurnUp,
            GameAction::TurnDown => GameActionModel::TurnDown,
            GameAction::Pause => GameActionModel::Pause,
            GameAction::ReturnToMenu(n, s) => GameActionModel::ReturnToMenu(n@, *s),
        }
    }
}

/// A segment lies on the half-cell grid of `p`, one step of slack past the
/// bounds: the head may overshoot an edge by one step before wraparound or
/// loss catches it, and spent tail ends follow it there.
pub open spec fn seg_wf(s: SnakeSegment, p: Playground) -> bool {
    &&& s.axis_ok()
    &&& s.oriented()
    &&& p.left() - 1 <= s.x1 <= p.right() + 1
    &&& p.left() - 1 <= s.x2 <= p.right() + 1
    &&& p.top() - 1 <= s.y1 <= p.bottom() + 1
    &&& p.top() - 1 <= s.y2 <= p.bottom() + 1
}

impl GameModel {
    /// The structural invariant of the chain: at least one segment, each on
    /// the grid of a playable playground.
    pub open spec fn segs_wf(self) -> bool {
        &&& self.playground.wf()
        &&& self.snake.segments.len() >= 1
        &&& forall|i: int|
            0 <= i < self.snake.segments.len() ==> seg_wf(
                #[trigger] self.snake.segments[i],
                self.playground,
            )
    }

    /// The head's leading point rests within the closed playground bounds.
    pub open spec fn head_in(self) -> bool {
        &&& self.snake.segments.len() >= 1
        &&& self.playground.left() <= self.snake.segments[0].x2 <= self.playground.right()
        &&& self.playground.top() <= self.snake.segments[0].y2 <= self.playground.bottom()
    }

    /// The game mode invariant: a well-formed chain, a cursor inside the
    /// nickname, and — until the game is lost — a head inside the bounds.
    pub open spec fn wf(self) -> bool {
        &&& self.segs_wf()
        &&& 0 <= self.character_index <= self.username.len()
        &&& !self.lost_flag ==> self.head_in()
    }
}

/// The chain after a turn: a fresh zero-length head segment with the new
/// direction, sitting at the head's leading point. A non-turn action leaves
/// the chain alone.
pub open spec fn turned(s: SnakeModel, a: GameAction) -> SnakeModel {
    match turn_of(a) {
        Option::Some(d) => SnakeModel {
            segments: seq![point_segment(s.segments[0].x2, s.segments[0].y2, d)] + s.segments,
            ..s
        },
        Option::None => s,
    }
}

/// A segment with its leading end advanced one grid step along its
/// direction.
pub open spec fn advanced_head(s: SnakeSegment) -> SnakeSegment {
    SnakeSegment {
        x2: (s.x2 + dir_dx(s.direction)) as i32,
        y2: (s.y2 + dir_dy(s.direction)) as i32,
        ..s
    }
}

/// The chain after the head advance.
pub open spec fn head_step(s: SnakeModel) -> SnakeModel {
    SnakeModel { segments: s.segments.update(0, advanced_head(s.segments[0])), ..s }
}

/// A segment with its trailing end advanced one grid step along its
/// direction.
pub open spec fn moved_tail(t: SnakeSegment) -> SnakeSegment {
    SnakeSegment {
        x1: (t.x1 + dir_dx(t.direction)) as i32,
        y1: (t.y1 + dir_dy(t.direction)) as i32,
        ..t
    }
}

/// The tail pauses this tick: its trailing end sits on the oldest swallowed
/// food point, which is then spent.
pub open spec fn tail_pauses(s: SnakeModel) -> bool {
    s.consumed_food.len() > 0 && s.consumed_food[0].0 == s.segments.last().x1
        && s.consumed_food[0].1 == s.segments.last().y1
}

/// The chain after the tail advance. A pausing tail spends the food point
/// and keeps its place. Otherwise the trailing end moves one step; a
/// segment that was already degenerate, or becomes degenerate by the move,
/// is dropped — except that the last remaining segment is never dropped, so
/// the chain keeps its one-segment floor.
pub open spec fn tail_step(s: SnakeModel) -> SnakeModel {
    if tail_pauses(s) {
        SnakeModel { consumed_food: s.consumed_food.drop_first(), ..s }
    } else {
        let t = s.segments.last();
        let m = moved_tail(t);
        if t.degenerate() {
            if s.segments.len() > 1 {
                SnakeModel { segments: s.segments.drop_last(), ..s }
            } else {
                s
            }
        } else if m.degenerate() && s.segments.len() > 1 {
            SnakeModel { segments: s.segments.drop_last(), ..s }
        } else {
            SnakeModel { segments: s.segments.update(s.segments.len() - 1, m), ..s }
        }
    }
}

/// The tail advance never touches the head's leading point or direction,
/// and never empties the chain.
pub proof fn lemma_tail_step_front(s: SnakeModel)
    requires
        s.segments.len() >= 1,
    ensures
        tail_step(s).segments.len() >= 1,
        s.segments.len() >= 2 ==> tail_step(s).segments[0] == s.segments[0],
        tail_step(s).segments[0].x2 == s.segments[0].x2,
        tail_step(s).segments[0].y2 == s.segments[0].y2,
        tail_step(s).segments[0].direction == s.segments[0].direction,
        tail_step(s).total_length == s.total_length,
{
}

/// The head has left the playground across the edge it is moving toward.
pub open spec fn head_crossed(s: SnakeModel, p: Playground) -> bool {
    let h = s.segments[0];
    match h.direction {
        SnakeSegmentDirection::Left => h.x2 < p.left(),
        SnakeSegmentDirection::Up => h.y2 > p.bottom(),
        SnakeSegmentDirection::Right => h.x2 > p.right(),
        SnakeSegmentDirection::Down => h.y2 < p.top(),
    }
}

/// The fresh head a wraparound inserts: a zero-length segment on the
/// opposite edge, keeping the in-plane coordinate and the direction.
pub open spec fn wrapped_head(s: SnakeModel, p: Playground) -> SnakeSegment {
    let h = s.segments[0];
    match h.direction {
        SnakeSegmentDirection::Left => point_segment(p.right() as i32, h.y2, h.direction),
        SnakeSegmentDirection::Up => point_segment(h.x2, p.top() as i32, h.direction),
        SnakeSegmentDirection::Right => point_segment(p.left() as i32, h.y2, h.direction),
        SnakeSegmentDirection::Down => point_segment(h.x2, p.bottom() as i32, h.direction),
    }
}

/// The chain after the wraparound check: across a non-killing boundary the
/// wrapped head is inserted and the tail advances once more to compensate
/// for the extra segment; otherwise nothing happens.
pub open spec fn teleport_step(s: SnakeModel, p: Playground, kill: bool) -> SnakeModel {
    if !kill && head_crossed(s, p) {
        tail_step(SnakeModel { segments: seq![wrapped_head(s, p)] + s.segments, ..s })
    } else {
        s
    }
}

/// The head's leading point rests at or beyond some playground edge.
pub open spec fn head_out(s: SnakeModel, p: Playground) -> bool {
    let h = s.segments[0];
    h.x2 >= p.right() || h.x2 <= p.left() || h.y2 >= p.bottom() || h.y2 <= p.top()
}

/// The point `(hx, hy)` lies within the segment's bounding extent,
/// inclusive, in either coordinate sense.
pub open spec fn seg_contains(seg: SnakeSegment, hx: int, hy: int) -> bool {
    &&& if seg.x1 <= seg.x2 {
        seg.x1 <= hx <= seg.x2
    } else {
        seg.x2 <= hx <= seg.x1
    }
    &&& if seg.y1 <= seg.y2 {
        seg.y1 <= hy <= seg.y2
    } else {
        seg.y2 <= hy <= seg.y1
    }
}

/// The head's leading point lies within some body segment's bounding
/// extent.
pub open spec fn head_hits_body(s: SnakeModel) -> bool {
    exists|i: int|
        1 <= i < s.segments.len() && seg_contains(
            #[trigger] s.segments[i],
            s.segments[0].x2 as int,
            s.segments[0].y2 as int,
        )
}

/// The loss condition of one tick: on a killing boundary a head at or past
/// any edge, and on any boundary a head inside the body.
pub open spec fn lose_now(s: SnakeModel, p: Playground, kill: bool) -> bool {
    (kill && head_out(s, p)) || head_hits_body(s)
}

/// The head after its advance this tick: one step of overshoot along its
/// direction, in-plane still within the closed bounds.
pub open spec fn head_slack_ok(m: GameModel) -> bool {
    m.snake.segments.len() >= 1 && {
        let h = m.snake.segments[0];
        let p = m.playground;
        match h.direction {
            SnakeSegmentDirection::Left => p.left() - 1 <= h.x2 <= p.right() - 1 && p.top() <= h.y2
                <= p.bottom(),
            SnakeSegmentDirection::Right => p.left() + 1 <= h.x2 <= p.right() + 1 && p.top()
                <= h.y2 <= p.bottom(),
            SnakeSegmentDirection::Up => p.top() + 1 <= h.y2 <= p.bottom() + 1 && p.left() <= h.x2
                <= p.right(),
            SnakeSegmentDirection::Down => p.top() - 1 <= h.y2 <= p.bottom() - 1 && p.left()
                <= h.x2 <= p.right(),
        }
    }
}

/// The food point a 32-bit random draw places: two independent sub-ranges
/// of the draw pick the cell column and row, each reduced modulo the
/// playground's size, landing on a whole-cell grid point.
pub open spec fn spec_food_point(p: Playground, r: u32) -> (i32, i32) {
    (
        (2 * (p.x + r % (p.width as u32))) as i32,
        (2 * (p.y + ((r >> 16u32) % (p.height as u32)))) as i32,
    )
}

/// The game after the food phase has settled on active food `c`: a head
/// sitting on `c` swallows it (queueing it for the tail, growing the target
/// length by one cell, clearing the active food), any other head leaves it
/// active.
pub open spec fn with_food(g: GameModel, c: (i32, i32)) -> GameModel {
    if g.snake.segments[0].x2 == c.0 && g.snake.segments[0].y2 == c.1 {
        GameModel {
            snake: SnakeModel {
                consumed_food: g.snake.consumed_food.push(c),
                total_length: if g.snake.total_length + 2 <= u64::MAX {
                    (g.snake.total_length + 2) as u64
                } else {
                    u64::MAX
                },
                ..g.snake
            },
            new_food: Option::None,
            ..g
        }
    } else {
        GameModel { new_food: Option::Some(c), ..g }
    }
}

/// How the food phase relates the tick's start to the state the rest of the
/// tick runs on: known food settles deterministically, absent food is drawn
/// from some 32-bit value.
pub open spec fn food_phase(g: GameModel, g1: GameModel) -> bool {
    match g.new_food {
        Option::Some(c) => g1 == with_food(g, c),
        Option::None => exists|rv: u32| g1 == with_food(g, #[trigger] spec_food_point(g.playground, rv)),
    }
}

/// The most recent action of a tick's queue wins; an empty queue means no
/// action.
pub open spec fn last_action(actions: Seq<GameAction>) -> GameAction {
    if actions.len() > 0 {
        actions.last()
    } else {
        GameAction::DoNothing
    }
}

/// Everything a tick does after the food phase: turn, head advance, tail
/// advance, wraparound, loss check.
pub open spec fn tick_rest(g: GameModel, a: GameAction) -> GameModel {
    let s1 = turned(g.snake, a);
    let s2 = head_step(s1);
    let s3 = tail_step(s2);
    let s4 = teleport_step(s3, g.playground, g.playground_borders_kill);
    GameModel {
        snake: s4,
        lost_flag: g.lost_flag || lose_now(s4, g.playground, g.playground_borders_kill),
        ..g
    }
}

/// A requested turn is parallel to the current direction: the same axis,
/// so either the same heading or a straight reversal.
pub open spec fn parallel_turn(k: Key, d: SnakeSegmentDirection) -> bool {
    match k {
        Key::Up | Key::Down => d == SnakeSegmentDirection::Up || d == SnakeSegmentDirection::Down,
        Key::Left | Key::Right => d == SnakeSegmentDirection::Left || d
            == SnakeSegmentDirection::Right,
        _ => false,
    }
}

/// What an arrow key asks for while playing, given the head's direction:
/// a turn onto the other axis, and no action for a parallel request or any
/// other key.
pub open spec fn resolve_key(k: Key, d: SnakeSegmentDirection) -> GameAction {
    match k {
        Key::Up => if parallel_turn(k, d) {
            GameAction::DoNothing
        } else {
            GameAction::TurnUp
        },
        Key::Down => if parallel_turn(k, d) {
            GameAction::DoNothing
        } else {
            GameAction::TurnDown
        },
        Key::Left => if parallel_turn(k, d) {
            GameAction::DoNothing
        } else {
            GameAction::TurnLeft
        },
        Key::Right => if parallel_turn(k, d) {
            GameAction::DoNothing
        } else {
            GameAction::TurnRight
        },
        _ => GameAction::DoNothing,
    }
}

/// The nickname line and cursor after one editing key: printable characters
/// insert at the cursor, backspace removes the character before it, the
/// horizontal arrows move it within the line, anything else changes
/// nothing.
pub open spec fn edited_name(u: Seq<char>, ci: int, k: Key) -> (Seq<char>, int) {
    match k {
        Key::Backspace => if ci > 0 {
            (u.remove(ci - 1), ci - 1)
        } else {
            (u, ci)
        },
        Key::Char(c) => (u.insert(ci, c), ci + 1),
        Key::Left => (u, if ci > 0 { ci - 1 } else { 0 }),
        Key::Right => (u, if ci + 1 <= u.len() { ci + 1 } else { u.len() as int }),
        _ => (u, ci),
    }
}

/// The score a finished game reports: the target length in whole cells,
/// capped at the stored score range.
pub open spec fn spec_score(g: GameModel) -> u16 {
    if g.snake.total_length / 2 > 65535 {
        65535u16
    } else {
        (g.snake.total_length / 2) as u16
    }
}

/// Prepending a segment adds its extent to the chain's total.
proof fn lemma_total_extent_push_front(s: Seq<SnakeSegment>, x: SnakeSegment)
    ensures
        total_extent(seq![x] + s) == x.extent() + total_extent(s),
{
    let t = seq![x] + s;
    assert(t[0] == x);
    assert(t.drop_first() =~= s);
}

/// The chain's total extent splits off its last segment.
proof fn lemma_total_extent_last(s: Seq<SnakeSegment>)
    requires
        s.len() >= 1,
    ensures
        total_extent(s) == total_extent(s.drop_last()) + s.last().extent(),
    decreases s.len(),
{
    if s.len() == 1 {
        assert(s.drop_last() =~= Seq::<SnakeSegment>::empty());
        assert(s.drop_first() =~= Seq::<SnakeSegment>::empty());
    } else {
        lemma_total_extent_last(s.drop_first());
        assert(s.drop_first().drop_last() =~= s.drop_last().drop_first());
        assert(s.drop_first().last() == s.last());
        assert(s.drop_last()[0] == s[0]);
    }
}

/// Replacing the head swaps its extent in the chain's total.
proof fn lemma_total_extent_update_first(s: Seq<SnakeSegment>, v: SnakeSegment)
    requires
        s.len() >= 1,
    ensures
        total_extent(s.update(0, v)) == total_extent(s) - s[0].extent() + v.extent(),
{
    let t = s.update(0, v);
    assert(t[0] == v);
    assert(t.drop_first() =~= s.drop_first());
}

/// Replacing the tail swaps its extent in the chain's total.
proof fn lemma_total_extent_update_last(s: Seq<SnakeSegment>, v: SnakeSegment)
    requires
        s.len() >= 1,
    ensures
        total_extent(s.update(s.len() - 1, v)) == total_extent(s) - s.last().extent()
            + v.extent(),
{
    let t = s.update(s.len() - 1, v);
    lemma_total_extent_last(s);
    lemma_total_extent_last(t);
    assert(t.drop_last() =~= s.drop_last());
    assert(t.last() == v);
}

/// Loose enough bounds for one more step of tail arithmetic: on its axis,
/// oriented, and within two steps of the playground bounds.
pub open spec fn seg_arith_ok(s: SnakeSegment, p: Playground) -> bool {
    &&& s.axis_ok()
    &&& s.oriented()
    &&& p.left() - 2 <= s.x1 <= p.right() + 2
    &&& p.left() - 2 <= s.x2 <= p.right() + 2
    &&& p.top() - 2 <= s.y1 <= p.bottom() + 2
    &&& p.top() - 2 <= s.y2 <= p.bottom() + 2
}

/// Advancing the head's leading end lengthens it by exactly one step, and
/// keeps it on its axis and orientation.
proof fn lemma_advanced_head_extent(h: SnakeSegment, p: Playground)
    requires
        seg_wf(h, p),
    ensures
        advanced_head(h).extent() == h.extent() + 1,
        advanced_head(h).axis_ok(),
        advanced_head(h).oriented(),
{
}

/// What one non-pausing tail advance does to the drawn length: nothing
/// when the tail was already spent (degenerate), exactly one step
/// otherwise.
proof fn lemma_tail_step_extent(s: SnakeModel, p: Playground)
    requires
        s.segments.len() >= 1,
        seg_arith_ok(s.segments.last(), p),
        !tail_pauses(s),
    ensures
        s.segments.last().degenerate() ==> total_extent(tail_step(s).segments) == total_extent(
            s.segments,
        ),
        !s.segments.last().degenerate() ==> total_extent(tail_step(s).segments) == total_extent(
            s.segments,
        ) - 1,
{
    let t = s.segments.last();
    let m = moved_tail(t);
    if t.degenerate() {
        if s.segments.len() > 1 {
            lemma_total_extent_last(s.segments);
        }
    } else {
        assert(m.extent() == t.extent() - 1);
        if m.degenerate() && s.segments.len() > 1 {
            lemma_total_extent_last(s.segments);
            assert(t.extent() == 1);
        } else {
            lemma_total_extent_update_last(s.segments, m);
        }
    }
}

/// While running, a tick that neither pauses the tail on a food point, nor
/// finds the tail already spent, nor wraps the head across a boundary,
/// conserves the drawn length exactly: the head gains the step the tail
/// gives up.
pub proof fn lemma_tick_preserves_length(g: GameModel, a: GameAction)
    requires
        g.segs_wf(),
        !tail_pauses(head_step(turned(g.snake, a))),
        !head_step(turned(g.snake, a)).segments.last().degenerate(),
        g.playground_borders_kill || !head_crossed(
            tail_step(head_step(turned(g.snake, a))),
            g.playground,
        ),
    ensures
        total_extent(tick_rest(g, a).snake.segments) == total_extent(g.snake.segments),
{
    let p = g.playground;
    let s0 = g.snake;
    let s1 = turned(s0, a);
    let s2 = head_step(s1);
    let s3 = tail_step(s2);
    match turn_of(a) {
        Option::Some(d) => {
            lemma_total_extent_push_front(
                s0.segments,
                point_segment(s0.segments[0].x2, s0.segments[0].y2, d),
            );
        },
        Option::None => {},
    }
    assert(total_extent(s1.segments) == total_extent(s0.segments));
    assert(seg_wf(s1.segments[0], p));
    lemma_advanced_head_extent(s1.segments[0], p);
    lemma_total_extent_update_first(s1.segments, advanced_head(s1.segments[0]));
    assert(total_extent(s2.segments) == total_extent(s0.segments) + 1);
    assert(seg_arith_ok(s2.segments.last(), p)) by {
        if s2.segments.len() >= 2 {
            assert(s2.segments.last() == s1.segments.last());
            assert(s1.segments.last() == s0.segments[s0.segments.len() - 1]);
        } else {
            assert(s2.segments.last() == advanced_head(s1.segments[0]));
            assert(seg_wf(s1.segments[0], p));
        }
    }
    lemma_tail_step_extent(s2, p);
    assert(total_extent(s3.segments) == total_extent(s0.segments));
    assert(tick_rest(g, a).snake == s3);
}

/// A tick whose tail pauses on a reached food point grows the drawn length
/// by exactly one grid step — half a cell — while the target length stays
/// where the swallow already put it: growth arrives at the tail.
pub proof fn lemma_pause_tick_grows_length(g: GameModel, a: GameAction)
    requires
        g.segs_wf(),
        tail_pauses(head_step(turned(g.snake, a))),
        g.playground_borders_kill || !head_crossed(
            tail_step(head_step(turned(g.snake, a))),
            g.playground,
        ),
    ensures
        total_extent(tick_rest(g, a).snake.segments) == total_extent(g.snake.segments) + 1,
        tick_rest(g, a).snake.total_length == g.snake.total_length,
{
    let p = g.playground;
    let s0 = g.snake;
    let s1 = turned(s0, a);
    let s2 = head_step(s1);
    match turn_of(a) {
        Option::Some(d) => {
            lemma_total_extent_push_front(
                s0.segments,
                point_segment(s0.segments[0].x2, s0.segments[0].y2, d),
            );
        },
        Option::None => {},
    }
    assert(seg_wf(s1.segments[0], p));
    lemma_advanced_head_extent(s1.segments[0], p);
    lemma_total_extent_update_first(s1.segments, advanced_head(s1.segments[0]));
    assert(tail_step(s2).segments == s2.segments);
    assert(tick_rest(g, a).snake == tail_step(s2));
}

/// A tick that finds the tail already spent — a zero-length segment left
/// behind by a wraparound followed by an immediate turn — only discards
/// it, so the head's advance shows as one step of growth.
pub proof fn lemma_spent_tail_tick_grows_length(g: GameModel, a: GameAction)
    requires
        g.segs_wf(),
        !tail_pauses(head_step(turned(g.snake, a))),
        head_step(turned(g.snake, a)).segments.last().degenerate(),
        g.playground_borders_kill || !head_crossed(
            tail_step(head_step(turned(g.snake, a))),
            g.playground,
        ),
    ensures
        total_extent(tick_rest(g, a).snake.segments) == total_extent(g.snake.segments) + 1,
{
    let p = g.playground;
    let s0 = g.snake;
    let s1 = turned(s0, a);
    let s2 = head_step(s1);
    match turn_of(a) {
        Option::Some(d) => {
            lemma_total_extent_push_front(
                s0.segments,
                point_segment(s0.segments[0].x2, s0.segments[0].y2, d),
            );
        },
        Option::None => {},
    }
    assert(seg_wf(s1.segments[0], p));
    lemma_advanced_head_extent(s1.segments[0], p);
    lemma_total_extent_update_first(s1.segments, advanced_head(s1.segments[0]));
    assert(seg_arith_ok(s2.segments.last(), p)) by {
        if s2.segments.len() >= 2 {
            assert(s2.segments.last() == s1.segments.last());
            assert(s1.segments.last() == s0.segments[s0.segments.len() - 1]);
        } else {
            assert(s2.segments.last() == advanced_head(s1.segments[0]));
        }
    }
    lemma_tail_step_extent(s2, p);
    assert(tick_rest(g, a).snake == tail_step(s2));
}

/// The wraparound insertion itself conserves the drawn length — the
/// inserted head is zero-length — and a whole wraparound never touches the
/// target length.
pub proof fn lemma_teleport_insert_preserves_length(s: SnakeModel, p: Playground)
    requires
        s.segments.len() >= 1,
    ensures
        total_extent(seq![wrapped_head(s, p)] + s.segments) == total_extent(s.segments),
        teleport_step(s, p, false).total_length == s.total_length,
{
    lemma_total_extent_push_front(s.segments, wrapped_head(s, p));
    if head_crossed(s, p) {
        let pushed = SnakeModel { segments: seq![wrapped_head(s, p)] + s.segments, ..s };
        lemma_tail_step_front(pushed);
    }
}

/// Swallowing the active food grows the target length by exactly one cell
/// (two grid steps, short of saturation) and queues the food point for the
/// tail; the drawn chain itself is untouched until the tail reaches it.
pub proof fn lemma_swallow_grows_target(g: GameModel, c: (i32, i32))
    requires
        g.snake.segments.len() >= 1,
        g.snake.segments[0].x2 == c.0,
        g.snake.segments[0].y2 == c.1,
        g.snake.total_length + 2 <= u64::MAX,
    ensures
        with_food(g, c).snake.total_length == g.snake.total_length + 2,
        with_food(g, c).snake.consumed_food == g.snake.consumed_food.push(c),
        with_food(g, c).snake.segments == g.snake.segments,
        with_food(g, c).new_food is None,
{
}

/// The full account of a wraparound tick: the inserted head is zero-length
/// (the insertion conserves the drawn length), but the compensating tail
/// advance takes one step, so a crossing tick whose tail neither pauses nor
/// is spent leaves the drawn length exactly one step shorter — the target
/// length untouched.
pub proof fn lemma_wrap_tick_shrinks_length(g: GameModel, a: GameAction)
    requires
        g.segs_wf(),
        !g.playground_borders_kill,
        ({
            let s2 = head_step(turned(g.snake, a));
            &&& !tail_pauses(s2)
            &&& !s2.segments.last().degenerate()
        }),
        ({
            let s3 = tail_step(head_step(turned(g.snake, a)));
            let pushed = SnakeModel {
                segments: seq![wrapped_head(s3, g.playground)] + s3.segments,
                ..s3
            };
            &&& head_crossed(s3, g.playground)
            &&& !tail_pauses(pushed)
            &&& !pushed.segments.last().degenerate()
        }),
    ensures
        total_extent(tick_rest(g, a).snake.segments) == total_extent(g.snake.segments) - 1,
        tick_rest(g, a).snake.total_length == g.snake.total_length,
{
    let p = g.playground;
    let s0 = g.snake;
    let s1 = turned(s0, a);
    let s2 = head_step(s1);
    let s3 = tail_step(s2);
    let pushed = SnakeModel { segments: seq![wrapped_head(s3, p)] + s3.segments, ..s3 };
    match turn_of(a) {
        Option::Some(d) => {
            lemma_total_extent_push_front(
                s0.segments,
                point_segment(s0.segments[0].x2, s0.segments[0].y2, d),
            );
        },
        Option::None => {},
    }
    assert(seg_wf(s1.segments[0], p));
    lemma_advanced_head_extent(s1.segments[0], p);
    lemma_total_extent_update_first(s1.segments, advanced_head(s1.segments[0]));
    assert(total_extent(s2.segments) == total_extent(s0.segments) + 1);
    let t2 = s2.segments.last();
    assert(seg_arith_ok(t2, p)) by {
        if s2.segments.len() >= 2 {
            assert(t2 == s1.segments.last());
            assert(s1.segments.last() == s0.segments[s0.segments.len() - 1]);
        } else {
            assert(t2 == advanced_head(s1.segments[0]));
        }
    }
    lemma_tail_step_extent(s2, p);
    assert(total_extent(s3.segments) == total_extent(s0.segments));
    // The chain after the first tail advance still bounds its last segment.
    assert(seg_arith_ok(s3.segments.last(), p)) by {
        let m = moved_tail(t2);
        if m.degenerate() && s2.segments.len() > 1 {
            assert(s3.segments == s2.segments.drop_last());
            let j = s3.segments.len() - 1;
            assert(s3.segments.last() == s2.segments[j]);
            if j == 0 {
                assert(s2.segments[0] == advanced_head(s1.segments[0]));
            } else {
                assert(s2.segments[j] == s1.segments[j]);
                assert(seg_wf(s1.segments[j], p)) by {
                    match turn_of(a) {
                        Option::Some(d) => {
                            assert(s1.segments[j] == s0.segments[j - 1]);
                        },
                        Option::None => {
                            assert(s1.segments[j] == s0.segments[j]);
                        },
                    }
                }
            }
        } else {
            assert(s3.segments.last() == m);
        }
    }
    lemma_total_extent_push_front(s3.segments, wrapped_head(s3, p));
    assert(wrapped_head(s3, p).extent() == 0);
    assert(total_extent(pushed.segments) == total_extent(s0.segments));
    assert(pushed.segments.last() == s3.segments.last());
    lemma_tail_step_extent(pushed, p);
    assert(total_extent(tail_step(pushed).segments) == total_extent(s0.segments) - 1);
    assert(teleport_step(s3, p, false) == tail_step(pushed));
    assert(tick_rest(g, a).snake == tail_step(pushed));
}

/// On a killing boundary, one action-free tick of a single right-moving
/// segment whose head sits strictly between the top and bottom bounds is
/// lost exactly when the advanced head reaches the right bound; the head
/// advances one step and the chain stays a single right-moving segment.
/// Chained tick over tick, this pins the run to the edge: the loss lands
/// exactly on the tick where the head coordinate reaches the boundary.
pub proof fn lemma_killing_boundary_tick(g: GameModel, a: GameAction)
    requires
        g.segs_wf(),
        g.playground_borders_kill,
        g.head_in(),
        g.snake.segments.len() == 1,
        turn_of(a) is None,
        g.snake.segments[0].direction == SnakeSegmentDirection::Right,
        g.playground.top() < g.snake.segments[0].y2 < g.playground.bottom(),
    ensures
        tick_rest(g, a).lost_flag <==> (g.lost_flag || g.snake.segments[0].x2 + 1
            >= g.playground.right()),
        tick_rest(g, a).snake.segments.len() == 1,
        tick_rest(g, a).snake.segments[0].x2 == g.snake.segments[0].x2 + 1,
        tick_rest(g, a).snake.segments[0].y2 == g.snake.segments[0].y2,
        tick_rest(g, a).snake.segments[0].direction == SnakeSegmentDirection::Right,
{
    let p = g.playground;
    let s1 = turned(g.snake, a);
    assert(s1 == g.snake);
    let s2 = head_step(s1);
    let s3 = tail_step(s2);
    lemma_tail_step_front(s2);
    assert(s3.segments.len() == 1);
    assert(teleport_step(s3, p, g.playground_borders_kill) == s3);
    assert(!head_hits_body(s3));
    assert(s3.segments[0].x2 == g.snake.segments[0].x2 + 1);
    assert(head_out(s3, p) <==> g.snake.segments[0].x2 + 1 >= p.right());
}

/// A turn request parallel to the current direction — the same heading or
/// a straight reversal — resolves to no action, and feeding that into the
/// turn step leaves the chain, in particular the head's direction, exactly
/// as it was.
pub proof fn lemma_parallel_turn_rejected(s: SnakeModel, k: Key)
    requires
        s.segments.len() >= 1,
        parallel_turn(k, s.segments[0].direction),
    ensures
        resolve_key(k, s.segments[0].direction) == GameAction::DoNothing,
        turned(s, resolve_key(k, s.segments[0].direction)) == s,
        turned(s, resolve_key(k, s.segments[0].direction)).segments[0].direction == s.segments[0].direction,
{
}

/// What one key event returns from the game's key handler.
pub open spec fn key_result(g: GameModel, k: KeyEvent) -> GameActionModel {
    if !k.is_press {
        GameActionModel::DoNothing
    } else if g.lost_flag {
        if k.code == Key::Enter {
            GameActionModel::ReturnToMenu(g.username, spec_score(g))
        } else {
            GameActionModel::DoNothing
        }
    } else {
        resolve_key(k.code, g.snake.segments[0].direction)@
    }
}

/// The game after one key event: unchanged while playing (turns only take
/// effect on the tick), edited nickname state after a loss.
pub open spec fn state_after_key(g: GameModel, k: KeyEvent) -> GameModel {
    if k.is_press && g.lost_flag && k.code != Key::Enter {
        GameModel {
            username: edited_name(g.username, g.character_index, k.code).0,
            character_index: edited_name(g.username, g.character_index, k.code).1,
            ..g
        }
    } else {
        g
    }
}

/// The state every fresh game starts from: a single eight-cell segment
/// moving right, centered on the playground's own size, a wrapping
/// boundary, no food and an empty nickname.
pub open spec fn initial_game() -> GameModel {
    GameModel {
        snake: SnakeModel {
            segments: seq![
                SnakeSegment {
                    x1: 50i32,
                    y1: 50i32,
                    x2: 66i32,
                    y2: 50i32,
                    direction: SnakeSegmentDirection::Right,
                },
            ],
            total_length: 16u64,
            consumed_food: Seq::empty(),
        },
        new_food: Option::None,
        playground: Playground { x: 10u16, y: 10u16, width: 50u16, height: 50u16 },
        username: Seq::empty(),
        character_index: 0,
        lost_flag: false,
        playground_borders_kill: false,
    }
}

/// Why a tick could not run.
#[derive(Clone, Copy, PartialEq, Eq, Structural, Debug)]
pub enum GameError {
    EntropySource,
}

/// Relies on rand's `OsRng` through `TryRngCore::try_next_u32`: a fresh
/// 32-bit value from the operating system's entropy source, or nothing when
/// that source fails. Nothing is assumed about the value.
#[verifier::external_body]
fn draw_entropy() -> Option<u32> {
    rand::rngs::OsRng.try_next_u32().ok()
}

/// Places a food point from a 32-bit random draw.
pub fn food_point(p: &Playground, r: u32) -> (c: (i32, i32))
    requires
        p.wf(),
    ensures
        c == spec_food_point(*p, r),
{
    let fx: u32 = (p.x as u32) + r % (p.width as u32);
    let fy: u32 = (p.y as u32) + ((r >> 16u32) % (p.height as u32));
    ((2 * fx) as i32, (2 * fy) as i32)
}

/// The game mode: the snake, the active food point (if any), the playground
/// and its boundary behaviour, and the nickname entry used after a loss.
pub struct AppGameState {
    pub snake: SnakeState,
    pub new_food: Option<(i32, i32)>,
    pub playground: Playground,
    pub username: Vec<char>,
    pub character_index: usize,
    pub lost_flag: bool,
    pub playground_borders_kill: bool,
}

impl View for AppGameState {
    type V = GameModel;

    open spec fn view(&self) -> GameModel {
        GameModel {
            snake: self.snake@,
            new_food: self.new_food,
            playground: self.playground,
            username: self.username@,
            character_index: self.character_index as int,
            lost_flag: self.lost_flag,
            playground_borders_kill: self.playground_borders_kill,
        }
    }
}

impl AppGameState {
    /// A fresh game: a single eight-cell segment moving right, centered on
    /// the playground's own size, a wrapping boundary, and no food yet.
    pub fn new() -> (s: AppGameState)
        ensures
            s@.wf(),
            s@ == initial_game(),
    {
        let playground = Playground { x: 10, y: 10, width: 50, height: 50 };
        let mut segments = std::collections::VecDeque::<SnakeSegment>::new();
        segments.push_front(
            SnakeSegment {
                x1: 50,
                y1: 50,
                x2: 66,
                y2: 50,
                direction: SnakeSegmentDirection::Right,
            },
        );
        let snake = SnakeState {
            segments,
            total_length: 16,
            consumed_food: std::collections::VecDeque::<(i32, i32)>::new(),
        };
        let s = AppGameState {
            snake,
            new_food: None,
            playground,
            username: Vec::new(),
            character_index: 0,
            lost_flag: false,
            playground_borders_kill: false,
        };
        assert(s@ =~= initial_game());
        s
    }

    /// Applies a pending action to the chain: a turn prepends a fresh
    /// zero-length head segment with the new direction at the head's leading
    /// point; any other action changes nothing.
    fn process_user_input(&mut self, action: &GameAction)
        requires
            old(self)@.segs_wf(),
        ensures
            final(self)@ =~= (GameModel { snake: turned(old(self)@.snake, *action), ..old(self)@ }),
            final(self)@.segs_wf(),
    {
        let hx = self.snake.segments[0].x2;
        let hy = self.snake.segments[0].y2;
        let dir: Option<SnakeSegmentDirection> = match action {
            GameAction::TurnLeft => Some(SnakeSegmentDirection::Left),
            GameAction::TurnRight => Some(SnakeSegmentDirection::Right),
            GameAction::TurnUp => Some(SnakeSegmentDirection::Up),
            GameAction::TurnDown => Some(SnakeSegmentDirection::Down),
            _ => None,
        };
        match dir {
            Some(d) => {
                self.snake.segments.push_front(
                    SnakeSegment { x1: hx, y1: hy, x2: hx, y2: hy, direction: d },
                );
                assert(self@.snake.segments =~= turned(old(self)@.snake, *action).segments);
            },
            None => {
                assert(turn_of(*action) is None);
            },
        }
    }

    /// Advances the head segment's leading end one grid step along its
    /// direction.
    fn move_snake_head(&mut self)
        requires
            old(self)@.segs_wf(),
            old(self)@.head_in(),
        ensures
            final(self)@ =~= (GameModel { snake: head_step(old(self)@.snake), ..old(self)@ }),
            final(self)@.segs_wf(),
    {
        let mut head = match self.snake.segments.pop_front() {
            Some(h) => h,
            None => {
                proof {
                    assert(false);
                }
                unreached()
            },
        };
        match head.direction {
            SnakeSegmentDirection::Left => {
                head.x2 = head.x2 - 1;
            },
            SnakeSegmentDirection::Up => {
                head.y2 = head.y2 + 1;
            },
            SnakeSegmentDirection::Right => {
                head.x2 = head.x2 + 1;
            },
            SnakeSegmentDirection::Down => {
                head.y2 = head.y2 - 1;
            },
        }
        self.snake.segments.push_front(head);
        assert(self@.snake.segments =~= head_step(old(self)@.snake).segments);
        proof {
            let segs = self@.snake.segments;
            assert forall|i: int| 0 <= i < segs.len() implies seg_wf(
                #[trigger] segs[i],
                self.playground,
            ) by {
                if i == 0 {
                    assert(segs[0] == advanced_head(old(self)@.snake.segments[0]));
                    assert(seg_wf(old(self)@.snake.segments[0], self.playground));
                } else {
                    assert(segs[i] == old(self)@.snake.segments[i]);
                }
            }
        }
    }

    /// Advances the tail: spends a reached food point (pausing the
    /// shrink), otherwise moves the trailing end one step and drops a
    /// segment that was or became degenerate — keeping at least one
    /// segment.
    fn move_snake_tail(&mut self)
        requires
            old(self)@.segs_wf(),
        ensures
            final(self)@ =~= (GameModel { snake: tail_step(old(self)@.snake), ..old(self)@ }),
            final(self)@.segs_wf(),
    {
        let n = self.snake.segments.len();
        let t = self.snake.segments[n - 1];
        if self.snake.consumed_food.len() > 0 {
            let c = self.snake.consumed_food[0];
            if t.x1 == c.0 && t.y1 == c.1 {
                self.snake.consumed_food.pop_front();
                assert(self@ =~= (GameModel { snake: tail_step(old(self)@.snake), ..old(self)@ }));
                return ;
            }
        }
        assert(!tail_pauses(old(self)@.snake));
        let deg_before = t.x1 == t.x2 && t.y1 == t.y2;
        let mut m = t;
        match t.direction {
            SnakeSegmentDirection::Left => {
                m.x1 = m.x1 - 1;
            },
            SnakeSegmentDirection::Up => {
                m.y1 = m.y1 + 1;
            },
            SnakeSegmentDirection::Right => {
                m.x1 = m.x1 + 1;
            },
            SnakeSegmentDirection::Down => {
                m.y1 = m.y1 - 1;
            },
        }
        assert(m == moved_tail(t));
        let deg_after = m.x1 == m.x2 && m.y1 == m.y2;
        if deg_before {
            if n > 1 {
                self.snake.segments.pop_back();
            }
        } else {
            self.snake.segments.pop_back();
            self.snake.segments.push_back(m);
            if deg_after && n > 1 {
                self.snake.segments.pop_back();
            } else {
                assert(self@.snake.segments =~= old(self)@.snake.segments.update(n - 1, m));
            }
        }
        assert(self@ =~= (GameModel { snake: tail_step(old(self)@.snake), ..old(self)@ }));
        proof {
            let segs = self@.snake.segments;
            assert forall|i: int| 0 <= i < segs.len() implies seg_wf(
                #[trigger] segs[i],
                self.playground,
            ) by {
                if i < n - 1 {
                    assert(segs[i] == old(self)@.snake.segments[i]);
                } else {
                    assert(seg_wf(t, self.playground));
                }
            }
        }
    }

    /// Wraps the head across a non-killing boundary: inserts a fresh head
    /// on the opposite edge and advances the tail once more to compensate
    /// for the extra segment.
    fn teleport_snake(&mut self)
        requires
            old(self)@.segs_wf(),
            head_slack_ok(old(self)@),
        ensures
            final(self)@ =~= (GameModel {
                snake: teleport_step(
                    old(self)@.snake,
                    old(self)@.playground,
                    old(self)@.playground_borders_kill,
                ),
                ..old(self)@
            }),
            final(self)@.segs_wf(),
            !old(self)@.playground_borders_kill ==> final(self)@.head_in(),
    {
        if self.playground_borders_kill {
            return ;
        }
        let h = self.snake.segments[0];
        let crossed = match h.direction {
            SnakeSegmentDirection::Left => h.x2 < self.playground.left_coord(),
            SnakeSegmentDirection::Up => h.y2 > self.playground.bottom_coord(),
            SnakeSegmentDirection::Right => h.x2 > self.playground.right_coord(),
            SnakeSegmentDirection::Down => h.y2 < self.playground.top_coord(),
        };
        assert(crossed == head_crossed(old(self)@.snake, old(self)@.playground));
        if !crossed {
            assert(self@.head_in());
            return ;
        }
        let (nx, ny) = match h.direction {
            SnakeSegmentDirection::Left => (self.playground.right_coord(), h.y2),
            SnakeSegmentDirection::Up => (h.x2, self.playground.top_coord()),
            SnakeSegmentDirection::Right => (self.playground.left_coord(), h.y2),
            SnakeSegmentDirection::Down => (h.x2, self.playground.bottom_coord()),
        };
        self.snake.segments.push_front(
            SnakeSegment { x1: nx, y1: ny, x2: nx, y2: ny, direction: h.direction },
        );
        let ghost mid = self@;
        proof {
            assert(mid.snake.segments =~= seq![
                wrapped_head(old(self)@.snake, old(self)@.playground),
            ] + old(self)@.snake.segments);
            assert forall|i: int| 0 <= i < mid.snake.segments.len() implies seg_wf(
                #[trigger] mid.snake.segments[i],
                self.playground,
            ) by {
                if i > 0 {
                    assert(mid.snake.segments[i] == old(self)@.snake.segments[i - 1]);
                }
            }
        }
        self.move_snake_tail();
        proof {
            assert(self@.snake =~= tail_step(mid.snake));
            assert(teleport_step(
                old(self)@.snake,
                old(self)@.playground,
                old(self)@.playground_borders_kill,
            ) =~= tail_step(mid.snake));
            lemma_tail_step_front(mid.snake);
            assert(self@.head_in());
        }
    }

    /// Sets the loss flag when the tick's loss condition holds: on a
    /// killing boundary a head at or past any edge, on any boundary a head
    /// within a body segment's bounding extent.
    fn check_lose_conditions(&mut self)
        requires
            old(self)@.segs_wf(),
        ensures
            final(self)@ =~= (GameModel {
                lost_flag: old(self)@.lost_flag || lose_now(
                    old(self)@.snake,
                    old(self)@.playground,
                    old(self)@.playground_borders_kill,
                ),
                ..old(self)@
            }),
    {
        let h = self.snake.segments[0];
        if self.playground_borders_kill {
            if h.x2 >= self.playground.right_coord() || h.x2 <= self.playground.left_coord()
                || h.y2 >= self.playground.bottom_coord() || h.y2
                <= self.playground.top_coord() {
                self.lost_flag = true;
                return ;
            }
        }
        let n = self.snake.segments.len();
        let mut i: usize = 1;
        while i < n
            invariant
                self@ =~= old(self)@,
                n == self@.snake.segments.len(),
                h == self@.snake.segments[0],
                1 <= i <= n,
                forall|j: int|
                    1 <= j < i ==> !seg_contains(
                        #[trigger] self@.snake.segments[j],
                        h.x2 as int,
                        h.y2 as int,
                    ),
            decreases n - i,
        {
            let s = self.snake.segments[i];
            let cx = if s.x1 <= s.x2 {
                s.x1 <= h.x2 && h.x2 <= s.x2
            } else {
                s.x2 <= h.x2 && h.x2 <= s.x1
            };
            let cy = if s.y1 <= s.y2 {
                s.y1 <= h.y2 && h.y2 <= s.y2
            } else {
                s.y2 <= h.y2 && h.y2 <= s.y1
            };
            if cx && cy {
                self.lost_flag = true;
                assert(head_hits_body(old(self)@.snake));
                return ;
            }
            i = i + 1;
        }
        assert(!head_hits_body(old(self)@.snake));
    }

    /// Runs the food phase: draws a food point when none is active (before
    /// any segment changes), then lets a head sitting on the active food
    /// swallow it. Fails only when the entropy source does, leaving the
    /// game untouched.
    fn generate_and_process_food(&mut self) -> (r: Result<(), GameError>)
        requires
            old(self)@.segs_wf(),
        ensures
            final(self)@.segs_wf(),
            old(self)@.new_food matches Some(c) ==> r is Ok && final(self)@ == with_food(
                old(self)@,
                c,
            ),
            old(self)@.new_food is None && r is Ok ==> exists|rv: u32|
                final(self)@ == with_food(
                    old(self)@,
                    #[trigger] spec_food_point(old(self)@.playground, rv),
                ),
            r is Err ==> final(self)@ == old(self)@ && old(self)@.new_food is None,
            r is Err ==> r == Result::<(), GameError>::Err(GameError::EntropySource),
    {
        let hx = self.snake.segments[0].x2;
        let hy = self.snake.segments[0].y2;
        let ghost had_food = self.new_food;
        if self.new_food.is_none() {
            match draw_entropy() {
                Some(rv) => {
                    let c = food_point(&self.playground, rv);
                    self.new_food = Some(c);
                },
                None => {
                    assert(self@ =~= old(self)@);
                    return Err(GameError::EntropySource);
                },
            }
        }
        let ghost drawn = self.new_food.unwrap();
        match self.new_food {
            Some(c) => {
                if hx == c.0 && hy == c.1 {
                    self.snake.consumed_food.push_back(c);
                    self.snake.total_length = if self.snake.total_length <= u64::MAX - 2 {
                        self.snake.total_length + 2
                    } else {
                        u64::MAX
                    };
                    self.new_food = None;
                }
            },
            None => {
                proof {
                    assert(false);
                }
            },
        }
        proof {
            assert(self@ =~= with_food(old(self)@, drawn));
            if had_food is None {
                assert(exists|rv: u32|
                    self@ == with_food(
                        old(self)@,
                        #[trigger] spec_food_point(old(self)@.playground, rv),
                    ));
            }
        }
        Ok(())
    }

    /// Runs one simulation tick with the most recent queued action: food
    /// maintenance, turn, head advance, tail advance, wraparound, loss
    /// check. A lost game ignores ticks. Fails only when the entropy source
    /// does, leaving the game untouched.
    pub fn on_tick(&mut self, actions: &Vec<GameAction>) -> (r: Result<(), GameError>)
        requires
            old(self)@.wf(),
        ensures
            final(self)@.wf(),
            old(self)@.lost_flag ==> r is Ok && final(self)@ == old(self)@,
            r is Err ==> final(self)@ == old(self)@ && !old(self)@.lost_flag && old(
                self,
            )@.new_food is None && r == Result::<(), GameError>::Err(GameError::EntropySource),
            !old(self)@.lost_flag && r is Ok ==> exists|g1: GameModel|
                #[trigger] food_phase(old(self)@, g1) && final(self)@ == tick_rest(
                    g1,
                    last_action(actions@),
                ),
    {
        if self.lost_flag {
            return Ok(());
        }
        match self.generate_and_process_food() {
            Err(e) => {
                return Err(e);
            },
            Ok(()) => {},
        }
        let ghost g1 = self@;
        proof {
            assert(food_phase(old(self)@, g1));
            assert(g1.snake.segments == old(self)@.snake.segments);
            assert(g1.head_in());
        }
        let ghost act = last_action(actions@);
        if actions.len() > 0 {
            let a = &actions[actions.len() - 1];
            self.process_user_input(a);
        }
        proof {
            assert(self@ =~= (GameModel { snake: turned(g1.snake, act), ..g1 }));
            assert(self@.head_in());
        }
        let ghost g2 = self@;
        self.move_snake_head();
        proof {
            assert(self@.snake =~= head_step(g2.snake));
            assert(head_slack_ok(self@));
        }
        let ghost g3 = self@;
        self.move_snake_tail();
        proof {
            lemma_tail_step_front(g3.snake);
            assert(head_slack_ok(self@));
        }
        let ghost g4 = self@;
        self.teleport_snake();
        let ghost g5 = self@;
        self.check_lose_conditions();
        proof {
            assert(self@ =~= tick_rest(g1, act));
            if self.playground_borders_kill {
                if !self@.lost_flag {
                    assert(!head_out(self@.snake, self@.playground));
                    assert(self@.head_in());
                }
            } else {
                assert(g5.head_in());
                assert(self@.head_in());
            }
        }
        Ok(())
    }

    /// The score this game reports: the target length in whole cells,
    /// capped at the stored score range.
    pub fn score(&self) -> (s: u16)
        ensures
            s == spec_score(self@),
    {
        let half = self.snake.total_length / 2;
        if half > 65535 {
            65535
        } else {
            half as u16
        }
    }

    /// Clamps a cursor position into the nickname line.
    fn clamp_cursor(&self, pos: usize) -> (r: usize)
        ensures
            r == if pos <= self@.username.len() {
                pos as int
            } else {
                self@.username.len() as int
            },
    {
        let n = self.username.len();
        if pos <= n {
            pos
        } else {
            n
        }
    }

    /// Moves the nickname cursor one place left, stopping at the start and
    /// clamping into the line.
    fn move_cursor_left(&mut self)
        ensures
            final(self)@ =~= (GameModel {
                character_index: if old(self)@.character_index > 0 {
                    if old(self)@.character_index - 1 <= old(self)@.username.len() {
                        old(self)@.character_index - 1
                    } else {
                        old(self)@.username.len() as int
                    }
                } else {
                    0
                },
                ..old(self)@
            }),
    {
        let moved = if self.character_index > 0 {
            self.character_index - 1
        } else {
            0
        };
        self.character_index = self.clamp_cursor(moved);
    }

    /// Moves the nickname cursor one place right, stopping at the end.
    fn move_cursor_right(&mut self)
        requires
            old(self)@.character_index <= old(self)@.username.len(),
        ensures
            final(self)@ =~= (GameModel {
                character_index: if old(self)@.character_index + 1 <= old(self)@.username.len() {
                    old(self)@.character_index + 1
                } else {
                    old(self)@.username.len() as int
                },
                ..old(self)@
            }),
    {
        let n = self.username.len();
        if self.character_index < n {
            self.character_index = self.character_index + 1;
        } else {
            self.character_index = n;
        }
    }

    /// Inserts a character at the cursor and moves the cursor past it.
    fn enter_char(&mut self, new_char: char)
        requires
            old(self)@.character_index <= old(self)@.username.len(),
        ensures
            final(self)@ =~= (GameModel {
                username: old(self)@.username.insert(old(self)@.character_index, new_char),
                character_index: old(self)@.character_index + 1,
                ..old(self)@
            }),
    {
        self.username.insert(self.character_index, new_char);
        self.move_cursor_right();
    }

    /// Removes the character before the cursor, if any, and moves the
    /// cursor back onto the gap.
    fn delete_char(&mut self)
        requires
            old(self)@.character_index <= old(self)@.username.len(),
        ensures
            final(self)@ =~= (GameModel {
                username: if old(self)@.character_index > 0 {
                    old(self)@.username.remove(old(self)@.character_index - 1)
                } else {
                    old(self)@.username
                },
                character_index: if old(self)@.character_index > 0 {
                    old(self)@.character_index - 1
                } else {
                    old(self)@.character_index
                },
                ..old(self)@
            }),
    {
        if self.character_index != 0 {
            self.username.remove(self.character_index - 1);
            self.move_cursor_left();
        }
    }

    /// Puts the nickname cursor back at the start of the line.
    fn reset_cursor(&mut self)
        ensures
            final(self)@ =~= (GameModel { character_index: 0, ..old(self)@ }),
    {
        self.character_index = 0;
    }

    /// Reacts to one key event. While playing, the arrows ask for turns and
    /// a parallel request resolves to no action. After a loss the keys edit
    /// the nickname instead, and Enter asks for the return to the menu,
    /// carrying the entered nickname and the final score.
    pub fn handle_key_press(&mut self, key: KeyEvent) -> (r: GameAction)
        requires
            old(self)@.wf(),
        ensures
            final(self)@.wf(),
            final(self)@ == state_after_key(old(self)@, key),
            r@ == key_result(old(self)@, key),
            !old(self)@.lost_flag || !key.is_press || key.code == Key::Enter ==> final(self)@
                == old(self)@,
    {
        if !key.is_press {
            return GameAction::DoNothing;
        }
        if self.lost_flag {
            match key.code {
                Key::Enter => {
                    let name = self.username.clone();
                    proof {
                        assert forall|i: int| 0 <= i < name@.len() implies name@[i]
                            == self@.username[i] by {}
                        assert(name@ =~= self@.username);
                    }
                    let score = self.score();
                    return GameAction::ReturnToMenu(name, score);
                },
                Key::Backspace => {
                    self.delete_char();
                    return GameAction::DoNothing;
                },
                Key::Char(to_insert) => {
                    self.enter_char(to_insert);
                    return GameAction::DoNothing;
                },
                Key::Left => {
                    self.move_cursor_left();
                    return GameAction::DoNothing;
                },
                Key::Right => {
                    self.move_cursor_right();
                    return GameAction::DoNothing;
                },
                _ => {
                    return GameAction::DoNothing;
                },
            }
        }
        let dir = self.snake.segments[0].direction;
        match key.code {
            Key::Up => {
                if dir == SnakeSegmentDirection::Up || dir == SnakeSegmentDirection::Down {
                    GameAction::DoNothing
                } else {
                    GameAction::TurnUp
                }
            },
            Key::Down => {
                if dir == SnakeSegmentDirection::Up || dir == SnakeSegmentDirection::Down {
                    GameAction::DoNothing
                } else {
                    GameAction::TurnDown
                }
            },
            Key::Left => {
                if dir == SnakeSegmentDirection::Left || dir == SnakeSegmentDirection::Right {
                    GameAction::DoNothing
                } else {
                    GameAction::TurnLeft
                }
            },
            Key::Right => {
                if dir == SnakeSegmentDirection::Left || dir == SnakeSegmentDirection::Right {
                    GameAction::DoNothing
                } else {
                    GameAction::TurnRight
                }
            },
            _ => GameAction::DoNothing,
        }
    }
}

} // verus!

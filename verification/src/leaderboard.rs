//! The leaderboard record store: a fixed-size ranked table of name/score
//! pairs.
//!
//! The table always holds exactly ten records, ordered by score from best to
//! worst. A new score is ranked by scanning for the first strictly lower
//! stored score: everything from that slot down shifts one place (the worst
//! record falls off), and the new record takes the slot with its name
//! space-padded to sixteen characters. A score no better than every stored
//! one does not qualify and leaves the table untouched.

use crate::input::{Key, KeyEvent};
use vstd::prelude::*;

verus! {

/// How many records the table holds.
pub const BOARD_LEN: usize = 10;

/// How many characters a stored name holds.
pub const NAME_LEN: usize = 16;

/// One stored record: a sixteen-character, space-padded name and a score.
#[derive(Clone, PartialEq, Debug)]
pub struct Record {
    pub name: Vec<char>,
    pub score: u16,
}

/// The mathematical shape of a record.
pub ghost struct RecordModel {
    pub name: Seq<char>,
    pub score: u16,
}

impl View for Record {
    type V = RecordModel;

    open spec fn view(&self) -> RecordModel {
        RecordModel { name: self.name@, score: self.score }
    }
}

/// The models of a sequence of records.
pub open spec fn records_model(rs: Seq<Record>) -> Seq<RecordModel> {
    Seq::new(rs.len(), |i: int| rs[i]@)
}

/// A record is well formed when its name fills exactly sixteen characters.
pub open spec fn record_wf(r: RecordModel) -> bool {
    r.name.len() == NAME_LEN
}

/// Scores never grow from one slot to the next.
pub open spec fn sorted_desc(b: Seq<RecordModel>) -> bool {
    forall|i: int, j: int| 0 <= i < j < b.len() ==> #[trigger] b[i].score >= #[trigger] b[j].score
}

/// A well-formed table: ten well-formed records, best score first.
pub open spec fn board_wf(b: Seq<RecordModel>) -> bool {
    &&& b.len() == BOARD_LEN
    &&& forall|i: int| 0 <= i < b.len() ==> record_wf(#[trigger] b[i])
    &&& sorted_desc(b)
}

/// The slot a new score ranks at: the first slot whose stored score is
/// strictly lower, or the table length when no slot qualifies.
pub open spec fn insert_pos(b: Seq<RecordModel>, score: u16) -> int
    decreases b.len(),
{
    if b.len() == 0 {
        0
    } else if score > b[0].score {
        0
    } else {
        1 + insert_pos(b.drop_first(), score)
    }
}

/// A name cut or padded with spaces to exactly sixteen characters.
pub open spec fn padded_name(name: Seq<char>) -> Seq<char> {
    Seq::new(NAME_LEN as nat, |j: int| if j < name.len() { name[j] } else { ' ' })
}

/// The table after ranking `score` under `name`: unchanged when the score
/// does not qualify, otherwise the new record sits at its rank and the
/// records below it shift down by one, dropping the worst.
pub open spec fn rank_insert(b: Seq<RecordModel>, name: Seq<char>, score: u16) -> Seq<
    RecordModel,
> {
    let pos = insert_pos(b, score);
    if pos >= b.len() {
        b
    } else {
        b.take(pos) + seq![RecordModel { name: padded_name(name), score }] + b.subrange(
            pos,
            b.len() - 1,
        )
    }
}

/// What a key press on the leaderboard screen asks the mode controller to do.
#[derive(Clone, Copy, PartialEq, Eq, Structural, Debug)]
pub enum LeaderboardAction {
    DoNothing,
    ReturnToMenu,
}

/// The leaderboard mode: the ranked table itself. The widget state used to
/// display it belongs to the terminal layer.
pub struct AppLeaderboardState {
    pub leaderboard: Vec<Record>,
}

impl View for AppLeaderboardState {
    type V = Seq<RecordModel>;

    open spec fn view(&self) -> Seq<RecordModel> {
        records_model(self.leaderboard@)
    }
}

/// The insertion slot never leaves the table, every record above it scores
/// at least the new score, and the record at it (if any) scores strictly
/// less.
pub proof fn lemma_insert_pos_properties(b: Seq<RecordModel>, score: u16)
    ensures
        0 <= insert_pos(b, score) <= b.len(),
        forall|j: int| 0 <= j < insert_pos(b, score) ==> #[trigger] b[j].score >= score,
        insert_pos(b, score) < b.len() ==> score > b[insert_pos(b, score)].score,
    decreases b.len(),
{
    if b.len() == 0 {
    } else if score > b[0].score {
    } else {
        lemma_insert_pos_properties(b.drop_first(), score);
        assert(forall|j: int|
            0 <= j < insert_pos(b.drop_first(), score) ==> #[trigger] b.drop_first()[j].score
                >= score);
        assert forall|j: int| 0 <= j < insert_pos(b, score) implies #[trigger] b[j].score
            >= score by {
            if j > 0 {
                assert(b[j] == b.drop_first()[j - 1]);
            }
        }
    }
}

/// The slot with the first strictly lower score is the insertion slot.
pub proof fn lemma_insert_pos_unique(b: Seq<RecordModel>, score: u16, k: int)
    requires
        0 <= k <= b.len(),
        forall|j: int| 0 <= j < k ==> #[trigger] b[j].score >= score,
        k < b.len() ==> score > b[k].score,
    ensures
        insert_pos(b, score) == k,
    decreases b.len(),
{
    if b.len() == 0 {
    } else if score > b[0].score {
        assert(k == 0) by {
            if k > 0 {
                assert(b[0].score >= score);
            }
        }
    } else {
        assert(k > 0) by {
            if k == 0 {
                assert(score > b[0].score);
            }
        }
        assert forall|j: int| 0 <= j < k - 1 implies #[trigger] b.drop_first()[j].score
            >= score by {
            assert(b.drop_first()[j] == b[j + 1]);
        }
        assert(k - 1 < b.drop_first().len() ==> score > b.drop_first()[k - 1].score);
        lemma_insert_pos_unique(b.drop_first(), score, k - 1);
    }
}

/// Ranking a score no better than every stored one leaves the table
/// unchanged.
pub proof fn lemma_insert_below_all_is_noop(b: Seq<RecordModel>, name: Seq<char>, score: u16)
    requires
        forall|i: int| 0 <= i < b.len() ==> score <= #[trigger] b[i].score,
    ensures
        rank_insert(b, name, score) == b,
{
    lemma_insert_pos_unique(b, score, b.len() as int);
}

/// Ranking preserves well-formedness: the table keeps its length, its names
/// stay sixteen characters, and it stays ordered best first.
pub proof fn lemma_rank_insert_wf(b: Seq<RecordModel>, name: Seq<char>, score: u16)
    requires
        board_wf(b),
    ensures
        board_wf(rank_insert(b, name, score)),
{
    lemma_insert_pos_properties(b, score);
    let pos = insert_pos(b, score);
    if pos < b.len() {
        let r = rank_insert(b, name, score);
        assert(r.len() == BOARD_LEN);
        assert forall|i: int| 0 <= i < r.len() implies record_wf(#[trigger] r[i]) by {
            if i < pos {
                assert(r[i] == b[i]);
            } else if i == pos {
                assert(r[i].name == padded_name(name));
            } else {
                assert(r[i] == b[i - 1]);
            }
        }
        assert forall|i: int, j: int| 0 <= i < j < r.len() implies #[trigger] r[i].score
            >= #[trigger] r[j].score by {
            let si = if i < pos { b[i].score } else if i == pos { score } else { b[i - 1].score };
            let sj = if j < pos { b[j].score } else if j == pos { score } else { b[j - 1].score };
            assert(r[i].score == si);
            assert(r[j].score == sj);
        }
    }
}

impl AppLeaderboardState {
    /// Takes over an already ranked table, normally the one the host binary
    /// carries in its reserved section.
    pub fn new(initial: Vec<Record>) -> (s: AppLeaderboardState)
        requires
            board_wf(records_model(initial@)),
        ensures
            s@ == records_model(initial@),
            board_wf(s@),
    {
        AppLeaderboardState { leaderboard: initial }
    }

    /// Ranks a finished game's name and score into the table.
    pub fn update_board(&mut self, name: &Vec<char>, score: u16)
        requires
            board_wf(old(self)@),
        ensures
            final(self)@ == rank_insert(old(self)@, name@, score),
            board_wf(final(self)@),
    {
        proof {
            lemma_insert_pos_properties(self@, score);
        }
        let ghost pos = insert_pos(self@, score);
        let n = self.leaderboard.len();
        let mut idx: usize = 0;
        let mut found: bool = false;
        while idx < n && !found
            invariant
                n == self.leaderboard@.len(),
                0 <= idx <= n,
                forall|j: int| 0 <= j < idx ==> self@[j].score >= score,
                found ==> idx < n && score > self@[idx as int].score,
                !found ==> forall|j: int| 0 <= j <= idx - 1 ==> #[trigger] self@[j].score >= score,
            decreases n - idx + (if found { 0int } else { 1int }),
        {
            if score > self.leaderboard[idx].score {
                found = true;
            } else {
                assert(self@[idx as int].score >= score);
                idx = idx + 1;
            }
        }
        if !found {
            proof {
                lemma_insert_pos_unique(self@, score, n as int);
            }
            return ;
        }
        proof {
            lemma_insert_pos_unique(self@, score, idx as int);
        }
        let mut padded: Vec<char> = Vec::new();
        let mut j: usize = 0;
        while j < NAME_LEN
            invariant
                0 <= j <= NAME_LEN,
                padded@.len() == j,
                forall|k: int| 0 <= k < j ==> padded@[k] == padded_name(name@)[k],
            decreases NAME_LEN - j,
        {
            if j < name.len() {
                padded.push(name[j]);
            } else {
                padded.push(' ');
            }
            j = j + 1;
        }
        assert(padded@ =~= padded_name(name@));
        let ghost before = self@;
        self.leaderboard.insert(idx, Record { name: padded, score });
        self.leaderboard.pop();
        assert(self@ =~= rank_insert(before, name@, score)) by {
            assert forall|k: int| 0 <= k < self@.len() implies self@[k] == rank_insert(
                before,
                name@,
                score,
            )[k] by {
                if k < pos {
                } else if k == pos {
                } else {
                }
            }
        }
        proof {
            lemma_rank_insert_wf(before, name@, score);
        }
    }

    /// Reacts to one key event on the leaderboard screen: `q` returns to the
    /// menu, everything else does nothing.
    pub fn handle_key_press(&self, key: KeyEvent) -> (r: LeaderboardAction)
        ensures
            r == (if key.is_press && key.code == Key::Char('q') {
                LeaderboardAction::ReturnToMenu
            } else {
                LeaderboardAction::DoNothing
            }),
    {
        if !key.is_press {
            return LeaderboardAction::DoNothing;
        }
        match key.code {
            Key::Char(c) => if c == 'q' {
                LeaderboardAction::ReturnToMenu
            } else {
                LeaderboardAction::DoNothing
            },
            _ => LeaderboardAction::DoNothing,
        }
    }
}

/// The table every unpatched binary starts from: ten placeholder records of
/// sixteen `a` characters and a zero score.
pub fn default_records() -> (rs: Vec<Record>)
    ensures
        records_model(rs@).len() == BOARD_LEN,
        forall|i: int|
            0 <= i < BOARD_LEN ==> #[trigger] records_model(rs@)[i] == (RecordModel {
                name: Seq::new(NAME_LEN as nat, |j: int| 'a'),
                score: 0u16,
            }),
        board_wf(records_model(rs@)),
{
    let mut rs: Vec<Record> = Vec::new();
    let mut i: usize = 0;
    while i < BOARD_LEN
        invariant
            0 <= i <= BOARD_LEN,
            rs@.len() == i,
            forall|k: int|
                0 <= k < i ==> #[trigger] rs@[k]@ == (RecordModel {
                    name: Seq::new(NAME_LEN as nat, |j: int| 'a'),
                    score: 0u16,
                }),
        decreases BOARD_LEN - i,
    {
        let mut name: Vec<char> = Vec::new();
        let mut j: usize = 0;
        while j < NAME_LEN
            invariant
                0 <= j <= NAME_LEN,
                name@.len() == j,
                forall|k: int| 0 <= k < j ==> name@[k] == 'a',
            decreases NAME_LEN - j,
        {
            name.push('a');
            j = j + 1;
        }
        assert(name@ =~= Seq::new(NAME_LEN as nat, |j: int| 'a'));
        rs.push(Record { name, score: 0 });
        i = i + 1;
    }
    rs
}

} // verus!

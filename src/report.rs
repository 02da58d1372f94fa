//! Grouping of aggregated play time into report entries, one per bucket.
use vstd::prelude::*;

verus! {

/// How the history report labels its buckets.
#[derive(Clone, Copy, Debug, PartialEq, Eq, Structural)]
pub enum HistoryType {
    MONTH,
    WEEK,
    DAY,
}

/// Total play time, in seconds, of one game in one bucket.
#[derive(Clone, Copy, Debug, PartialEq, Eq, Structural)]
pub struct HistoryGame {
    pub id: i64,
    pub playtime: i64,
}

/// One report entry: a bucket label and the games played in that bucket.
#[derive(Clone, Debug, PartialEq, Eq)]
pub struct GameHistory {
    pub kind: HistoryType,
    pub date: String,
    pub games: Vec<HistoryGame>,
}

/// One aggregated row: a bucket label (absent where the store could not form
/// one), a game, and that game's total seconds in the bucket.
#[derive(Clone, Debug, PartialEq, Eq)]
pub struct RawHistoryRow {
    pub bucket: Option<String>,
    pub game: i64,
    pub total_playtime: i64,
}

/// The time span a history query covers.
#[derive(Clone, Copy, Debug, PartialEq, Eq, Structural)]
pub enum HistoryScope {
    /// The days around a reference date, bucketed by day.
    Week,
    /// One calendar month, bucketed by week of the year.
    Month,
    /// One calendar year, bucketed by month.
    Year,
}

impl View for GameHistory {
    type V = (HistoryType, Seq<char>, Seq<HistoryGame>);

    open spec fn view(&self) -> (HistoryType, Seq<char>, Seq<HistoryGame>) {
        (self.kind, self.date@, self.games@)
    }
}

/// The scope that a query names: `week`, `month` or `year`.
pub open spec fn scope_named(name: Seq<char>) -> Option<HistoryScope> {
    if name == "week"@ {
        Some(HistoryScope::Week)
    } else if name == "month"@ {
        Some(HistoryScope::Month)
    } else if name == "year"@ {
        Some(HistoryScope::Year)
    } else {
        None
    }
}

/// The label type of the entries of a query named `name`: `day` gives DAY,
/// `month` gives WEEK, `year` gives MONTH, and any other name DAY.
pub open spec fn history_type_of(name: Seq<char>) -> HistoryType {
    if name == "day"@ {
        HistoryType::DAY
    } else if name == "month"@ {
        HistoryType::WEEK
    } else if name == "year"@ {
        HistoryType::MONTH
    } else {
        HistoryType::DAY
    }
}

impl HistoryScope {
    /// The scope named `name`, or `None` for any other name.
    pub fn from_name(name: &str) -> (r: Option<HistoryScope>)
        ensures
            r == scope_named(name@),
    {
        let name = name.to_string();
        if name == "week".to_string() {
            Some(HistoryScope::Week)
        } else if name == "month".to_string() {
            Some(HistoryScope::Month)
        } else if name == "year".to_string() {
            Some(HistoryScope::Year)
        } else {
            None
        }
    }
}

/// The label type that the entries of a query for scope `name` carry.
pub fn history_type_for_scope(name: &str) -> (r: HistoryType)
    ensures
        r == history_type_of(name@),
{
    let name = name.to_string();
    if name == "day".to_string() {
        HistoryType::DAY
    } else if name == "month".to_string() {
        HistoryType::WEEK
    } else if name == "year".to_string() {
        HistoryType::MONTH
    } else {
        HistoryType::DAY
    }
}

/// The entries as values.
pub open spec fn entries_view(entries: Seq<GameHistory>) -> Seq<(HistoryType, Seq<char>, Seq<HistoryGame>)> {
    entries.map_values(|e: GameHistory| e@)
}

/// The label of a row (empty where it has none).
pub open spec fn row_label(row: RawHistoryRow) -> Seq<char> {
    match row.bucket {
        Some(b) => b@,
        None => Seq::empty(),
    }
}

/// The game total that a row contributes to its entry.
pub open spec fn row_game(row: RawHistoryRow) -> HistoryGame {
    HistoryGame { id: row.game, playtime: row.total_playtime }
}

/// Every row carries a label.
pub open spec fn all_labelled(rows: Seq<RawHistoryRow>) -> bool {
    forall|i: int| 0 <= i < rows.len() ==> (#[trigger] rows[i]).bucket is Some
}

/// Position of the first entry labelled `label`, or -1 when there is none.
pub open spec fn label_position(entries: Seq<(HistoryType, Seq<char>, Seq<HistoryGame>)>, label: Seq<char>) -> int
    decreases entries.len(),
{
    if entries.len() == 0 {
        -1
    } else {
        let p = label_position(entries.drop_last(), label);
        if p >= 0 {
            p
        } else if entries.last().1 == label {
            entries.len() - 1
        } else {
            -1
        }
    }
}

/// The entries with `row` added: its game joins the entry of its label, or a
/// new entry of type `kind` is appended for a label not seen before.
pub open spec fn add_row(
    kind: HistoryType,
    entries: Seq<(HistoryType, Seq<char>, Seq<HistoryGame>)>,
    row: RawHistoryRow,
) -> Seq<(HistoryType, Seq<char>, Seq<HistoryGame>)> {
    let p = label_position(entries, row_label(row));
    if p >= 0 {
        entries.update(p, (entries[p].0, entries[p].1, entries[p].2.push(row_game(row))))
    } else {
        entries.push((kind, row_label(row), seq![row_game(row)]))
    }
}

/// The report entries of `rows`, grouped by label: one entry per distinct
/// label in order of first appearance, holding the games of that label's rows
/// in row order.
pub open spec fn grouped(kind: HistoryType, rows: Seq<RawHistoryRow>) -> Seq<(HistoryType, Seq<char>, Seq<HistoryGame>)>
    decreases rows.len(),
{
    if rows.len() == 0 {
        Seq::empty()
    } else {
        add_row(kind, grouped(kind, rows.drop_last()), rows.last())
    }
}

/// `label_position` finds the first entry of the label, and -1 only where no
/// entry has it.
pub proof fn lemma_label_position(entries: Seq<(HistoryType, Seq<char>, Seq<HistoryGame>)>, label: Seq<char>)
    ensures
        ({
            let p = label_position(entries, label);
            &&& -1 <= p < entries.len()
            &&& p >= 0 ==> entries[p].1 == label
            &&& forall|k: int| 0 <= k < entries.len() && (p < 0 || k < p) ==> entries[k].1 != label
        }),
    decreases entries.len(),
{
    if entries.len() > 0 {
        let init = entries.drop_last();
        lemma_label_position(init, label);
        assert forall|k: int| 0 <= k < init.len() implies init[k] == entries[k] by {}
    }
}

/// The games of the rows labelled `label`, in row order.
pub open spec fn label_games(rows: Seq<RawHistoryRow>, label: Seq<char>) -> Seq<HistoryGame>
    decreases rows.len(),
{
    if rows.len() == 0 {
        Seq::empty()
    } else {
        let rest = label_games(rows.drop_last(), label);
        if row_label(rows.last()) == label {
            rest.push(row_game(rows.last()))
        } else {
            rest
        }
    }
}

/// A label that no row carries has no games.
proof fn lemma_label_games_absent(rows: Seq<RawHistoryRow>, label: Seq<char>)
    requires
        forall|k: int| 0 <= k < rows.len() ==> row_label(#[trigger] rows[k]) != label,
    ensures
        label_games(rows, label) == Seq::<HistoryGame>::empty(),
    decreases rows.len(),
{
    if rows.len() > 0 {
        let init = rows.drop_last();
        assert forall|k: int| 0 <= k < init.len() implies row_label(#[trigger] init[k]) != label by {
            assert(init[k] == rows[k]);
        }
        lemma_label_games_absent(init, label);
    }
}

/// Grouping is a reduction keyed by label: the entries carry distinct labels
/// and the type `kind`; each entry holds exactly the games of the rows with its
/// label, in row order, and at least one; and every row's label has an entry.
pub proof fn lemma_grouping_by_label(kind: HistoryType, rows: Seq<RawHistoryRow>)
    ensures
        ({
            let g = grouped(kind, rows);
            &&& forall|i: int, j: int| 0 <= i < j < g.len() ==> #[trigger] g[i].1 != #[trigger] g[j].1
            &&& forall|i: int| 0 <= i < g.len() ==> (#[trigger] g[i]).0 == kind
            &&& forall|i: int| 0 <= i < g.len() ==> (#[trigger] g[i]).2 == label_games(rows, g[i].1)
            &&& forall|i: int| 0 <= i < g.len() ==> (#[trigger] g[i]).2.len() > 0
            &&& forall|k: int|
                0 <= k < rows.len() ==> exists|i: int|
                    0 <= i < g.len() && (#[trigger] g[i]).1 == row_label(#[trigger] rows[k])
        }),
    decreases rows.len(),
{
    if rows.len() > 0 {
        let init = rows.drop_last();
        let g0 = grouped(kind, init);
        let row = rows.last();
        let l = row_label(row);
        let game = row_game(row);
        let g = grouped(kind, rows);
        lemma_grouping_by_label(kind, init);
        lemma_label_position(g0, l);
        let p = label_position(g0, l);
        assert forall|k: int| 0 <= k < init.len() implies init[k] == rows[k] by {}
        if p >= 0 {
            assert(g == g0.update(p, (g0[p].0, g0[p].1, g0[p].2.push(game))));
            assert forall|i: int| 0 <= i < g.len() implies (#[trigger] g[i]).2 == label_games(
                rows,
                g[i].1,
            ) by {
                if i != p {
                    assert(g0[i].1 != g0[p].1);
                }
            }
            assert forall|k: int| 0 <= k < rows.len() implies exists|i: int|
                0 <= i < g.len() && (#[trigger] g[i]).1 == row_label(#[trigger] rows[k]) by {
                if k < init.len() {
                    let i = choose|i: int| 0 <= i < g0.len() && g0[i].1 == row_label(init[k]);
                    assert(g[i].1 == row_label(rows[k]));
                } else {
                    assert(g[p].1 == row_label(rows[k]));
                }
            }
        } else {
            assert(g == g0.push((kind, l, seq![game])));
            assert forall|k: int| 0 <= k < init.len() implies row_label(#[trigger] init[k]) != l by {
                let i = choose|i: int| 0 <= i < g0.len() && g0[i].1 == row_label(init[k]);
                assert(g0[i].1 != l);
            }
            lemma_label_games_absent(init, l);
            assert(label_games(rows, l) =~= seq![game]);
            assert forall|i: int| 0 <= i < g.len() implies (#[trigger] g[i]).2 == label_games(
                rows,
                g[i].1,
            ) by {
                if i < g0.len() {
                    assert(g[i] == g0[i]);
                    assert(g0[i].1 != l);
                }
            }
            assert forall|i: int, j: int| 0 <= i < j < g.len() implies #[trigger] g[i].1
                != #[trigger] g[j].1 by {
                if j == g0.len() {
                    assert(g0[i].1 != l);
                } else {
                    assert(g[i] == g0[i] && g[j] == g0[j]);
                }
            }
            assert forall|k: int| 0 <= k < rows.len() implies exists|i: int|
                0 <= i < g.len() && (#[trigger] g[i]).1 == row_label(#[trigger] rows[k]) by {
                if k < init.len() {
                    let i = choose|i: int| 0 <= i < g0.len() && g0[i].1 == row_label(init[k]);
                    assert(g[i] == g0[i]);
                } else {
                    assert(g[g0.len() as int].1 == row_label(rows[k]));
                }
            }
        }
    }
}

/// Position of the entry labelled `label` in `entries`.
fn find_label(entries: &Vec<GameHistory>, label: &String) -> (r: Option<usize>)
    ensures
        match r {
            Some(j) => j as int == label_position(entries_view(entries@), label@),
            None => label_position(entries_view(entries@), label@) == -1,
        },
{
    proof {
        lemma_label_position(entries_view(entries@), label@);
    }
    let mut j: usize = 0;
    while j < entries.len()
        invariant
            j <= entries@.len(),
            forall|k: int| 0 <= k < j ==> (#[trigger] entries_view(entries@)[k]).1 != label@,
        decreases entries@.len() - j,
    {
        if entries[j].date == *label {
            proof {
                let v = entries_view(entries@);
                let p = label_position(v, label@);
                lemma_label_position(v, label@);
                assert(v[j as int].1 == label@);
                if 0 <= p < j {
                    assert(v[p].1 != label@);
                }
                if p < 0 || p > j {
                    assert(v[j as int].1 != label@);
                }
            }
            return Some(j);
        }
        j = j + 1;
    }
    None
}

/// Groups aggregated rows into report entries of type `kind`: one entry per
/// distinct bucket label, in order of first appearance, each listing the
/// games of its rows in row order. Fails where a row has no label.
pub fn group_history(kind: HistoryType, rows: &Vec<RawHistoryRow>) -> (r: Option<Vec<GameHistory>>)
    ensures
        r is None <==> !all_labelled(rows@),
        r matches Some(entries) ==> entries_view(entries@) == grouped(kind, rows@),
{
    let mut entries: Vec<GameHistory> = Vec::new();
    let mut i: usize = 0;
    assert(rows@.take(0) == Seq::<RawHistoryRow>::empty());
    assert(entries_view(entries@) =~= Seq::empty());
    while i < rows.len()
        invariant
            i <= rows@.len(),
            all_labelled(rows@.take(i as int)),
            entries_view(entries@) == grouped(kind, rows@.take(i as int)),
        decreases rows@.len() - i,
    {
        let row = &rows[i];
        assert(rows@.take(i as int + 1).drop_last() == rows@.take(i as int));
        match &row.bucket {
            None => {
                assert(!all_labelled(rows@));
                return None;
            },
            Some(label) => {
                let game = HistoryGame { id: row.game, playtime: row.total_playtime };
                let ghost before = entries_view(entries@);
                proof {
                    lemma_label_position(before, label@);
                }
                match find_label(&entries, label) {
                    Some(j) => {
                        let ghost old_entries = entries@;
                        entries[j].games.push(game);
                        assert(entries@[j as int]@ == (
                            before[j as int].0,
                            before[j as int].1,
                            before[j as int].2.push(game),
                        ));
                        assert forall|k: int| 0 <= k < entries@.len() && k != j implies entries@[k]
                            == old_entries[k] by {}
                        assert(entries_view(entries@) =~= add_row(kind, before, *row));
                    },
                    None => {
                        let mut games: Vec<HistoryGame> = Vec::new();
                        games.push(game);
                        entries.push(GameHistory { kind, date: label.clone(), games });
                        assert(entries_view(entries@) =~= add_row(kind, before, *row));
                    },
                }
                assert(all_labelled(rows@.take(i as int + 1)));
            },
        }
        i = i + 1;
    }
    assert(rows@.take(rows@.len() as int) == rows@);
    Some(entries)
}

} // verus!

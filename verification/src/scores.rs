//! Figures drawn from the score history: how many games were played against
//! an opponent, how many a player won, and the table of wins by player.

use crate::record::Game;
use vstd::prelude::*;
use vstd::string::StringExecFns;

verus! {

/// One line of the table of wins: a winner's name and the number of games
/// recorded under it. A draw is recorded under the name `Draw`.
#[derive(Debug)]
pub struct WinTotal {
    pub name: String,
    pub wins: usize,
}

/// Number of the first `n` games that are recorded as won by `name`.
pub open spec fn wins_upto(games: Seq<Game>, name: Seq<char>, n: int) -> nat
    decreases n,
{
    if n <= 0 {
        0
    } else {
        wins_upto(games, name, n - 1) + (if games[n - 1].WinnerName@ == name {
            1nat
        } else {
            0nat
        })
    }
}

/// Number of the first `n` games in which `name` was the second player.
pub open spec fn against_upto(games: Seq<Game>, name: Seq<char>, n: int) -> nat
    decreases n,
{
    if n <= 0 {
        0
    } else {
        against_upto(games, name, n - 1) + (if games[n - 1].Player2Name@ == name {
            1nat
        } else {
            0nat
        })
    }
}

/// The places, among the first `n` games, of those won by `name`, in order.
pub open spec fn won_upto(games: Seq<Game>, name: Seq<char>, n: int) -> Seq<usize>
    decreases n,
{
    if n <= 0 {
        Seq::empty()
    } else if games[n - 1].WinnerName@ == name {
        won_upto(games, name, n - 1).push((n - 1) as usize)
    } else {
        won_upto(games, name, n - 1)
    }
}

/// Some line of the table stands under `name`.
pub open spec fn has_line(table: Seq<WinTotal>, name: Seq<char>) -> bool {
    exists|i: int| 0 <= i < table.len() && (#[trigger] table[i]).name@ == name
}

/// `name` is among the names.
pub open spec fn has_name(names: Seq<String>, name: Seq<char>) -> bool {
    exists|j: int| 0 <= j < names.len() && (#[trigger] names[j])@ == name
}

/// The table holds every winner's name once, with the number of games
/// recorded under it, and no other name.
pub open spec fn is_win_table(games: Seq<Game>, table: Seq<WinTotal>) -> bool {
    &&& forall|i: int, j: int|
        0 <= i < j < table.len() ==> (#[trigger] table[i]).name@ != (#[trigger] table[j]).name@
    &&& forall|i: int|
        0 <= i < table.len() ==> (#[trigger] table[i]).wins >= 1 && table[i].wins == wins_upto(
            games,
            table[i].name@,
            games.len() as int,
        )
    &&& forall|k: int| 0 <= k < games.len() ==> has_line(table, (#[trigger] games[k]).WinnerName@)
}

/// The lines of the table stand in the order of their numbers of wins,
/// the fewest first.
pub open spec fn sorted_by_wins(table: Seq<WinTotal>) -> bool {
    forall|i: int, j: int|
        0 <= i < j < table.len() ==> (#[trigger] table[i]).wins <= (#[trigger] table[j]).wins
}

/// No more than `n` of the first `n` games were won by one name.
pub proof fn lemma_wins_upto_bound(games: Seq<Game>, name: Seq<char>, n: int)
    requires
        0 <= n,
    ensures
        wins_upto(games, name, n) <= n,
    decreases n,
{
    if n > 0 {
        lemma_wins_upto_bound(games, name, n - 1);
    }
}

/// Number of games recorded as won by `name`.
pub fn games_won_by(games: &Vec<Game>, name: &str) -> (n: usize)
    ensures
        n == wins_upto(games@, name@, games@.len() as int),
{
    let wanted = String::from_str(name);
    let mut n: usize = 0;
    let mut k: usize = 0;
    while k < games.len()
        invariant
            k <= games.len(),
            wanted@ == name@,
            n == wins_upto(games@, name@, k as int),
            n <= k,
        decreases games.len() - k,
    {
        if games[k].WinnerName == wanted {
            n = n + 1;
        }
        k = k + 1;
    }
    n
}

/// Number of games in which `name` was the second player.
pub fn games_against(games: &Vec<Game>, name: &str) -> (n: usize)
    ensures
        n == against_upto(games@, name@, games@.len() as int),
{
    let wanted = String::from_str(name);
    let mut n: usize = 0;
    let mut k: usize = 0;
    while k < games.len()
        invariant
            k <= games.len(),
            wanted@ == name@,
            n == against_upto(games@, name@, k as int),
            n <= k,
        decreases games.len() - k,
    {
        if games[k].Player2Name == wanted {
            n = n + 1;
        }
        k = k + 1;
    }
    n
}

/// The places in the history of the games recorded as won by `name`, in
/// the order of the history.
pub fn wins_of(games: &Vec<Game>, name: &str) -> (places: Vec<usize>)
    ensures
        places@ == won_upto(games@, name@, games@.len() as int),
{
    let wanted = String::from_str(name);
    let mut places: Vec<usize> = Vec::new();
    let mut k: usize = 0;
    while k < games.len()
        invariant
            k <= games.len(),
            wanted@ == name@,
            places@ == won_upto(games@, name@, k as int),
        decreases games.len() - k,
    {
        if games[k].WinnerName == wanted {
            places.push(k);
        }
        k = k + 1;
    }
    places
}

/// A name under which none of the first `n` games is recorded has no win
/// among them.
pub proof fn lemma_no_win_without_game(games: Seq<Game>, name: Seq<char>, n: int)
    requires
        0 <= n <= games.len(),
        forall|k: int| 0 <= k < n ==> (#[trigger] games[k]).WinnerName@ != name,
    ensures
        wins_upto(games, name, n) == 0,
    decreases n,
{
    if n > 0 {
        lemma_no_win_without_game(games, name, n - 1);
    }
}

/// The tallies of the first `n` games: every winner's name among them
/// stands once in `names`, with its number of wins at the same place of
/// `wins`.
pub open spec fn tallies_upto(games: Seq<Game>, names: Seq<String>, wins: Seq<usize>, n: int) -> bool {
    &&& names.len() == wins.len()
    &&& forall|i: int, j: int|
        0 <= i < j < names.len() ==> (#[trigger] names[i])@ != (#[trigger] names[j])@
    &&& forall|j: int|
        0 <= j < names.len() ==> (#[trigger] wins[j]) >= 1 && wins[j] == wins_upto(
            games,
            names[j]@,
            n,
        )
    &&& forall|k: int| 0 <= k < n ==> has_name(names, (#[trigger] games[k]).WinnerName@)
}

/// The line of a table says what the tally at place `j` says.
pub open spec fn line_matches(line: WinTotal, names: Seq<String>, wins: Seq<usize>, j: int) -> bool {
    line.name@ == names[j]@ && line.wins == wins[j]
}

/// The place of `name` among the names, if it is there.
fn find_name(names: &Vec<String>, name: &String) -> (place: Option<usize>)
    ensures
        match place {
            Some(j) => j < names@.len() && names@[j as int]@ == name@,
            None => forall|j: int| 0 <= j < names@.len() ==> (#[trigger] names@[j])@ != name@,
        },
{
    let mut j: usize = 0;
    while j < names.len()
        invariant
            j <= names.len(),
            forall|i: int| 0 <= i < j ==> (#[trigger] names@[i])@ != name@,
        decreases names.len() - j,
    {
        if names[j] == *name {
            return Some(j);
        }
        j = j + 1;
    }
    None
}

/// The table of wins by player: one line for every name under which a game
/// is recorded as won, with the number of those games, the fewest wins
/// first. The order among names with the same number of wins is not
/// specified.
pub fn win_totals(games: &Vec<Game>) -> (table: Vec<WinTotal>)
    ensures
        is_win_table(games@, table@),
        sorted_by_wins(table@),
{
    let mut names: Vec<String> = Vec::new();
    let mut wins: Vec<usize> = Vec::new();
    let mut k: usize = 0;
    while k < games.len()
        invariant
            k <= games.len(),
            tallies_upto(games@, names@, wins@, k as int),
        decreases games.len() - k,
    {
        let winner = &games[k].WinnerName;
        let ghost before_names = names@;
        let ghost before_wins = wins@;
        match find_name(&names, winner) {
            Some(j) => {
                proof {
                    lemma_wins_upto_bound(games@, names@[j as int]@, k as int);
                }
                let so_far = wins[j];
                wins.set(j, so_far + 1);
                proof {
                    assert forall|i: int| 0 <= i < names@.len() implies (#[trigger] wins@[i]) >= 1
                        && wins@[i] == wins_upto(games@, names@[i]@, k + 1) by {
                        assert(before_wins[i] >= 1);
                        if i != j {
                            assert(names@[i]@ != names@[j as int]@);
                        }
                    }
                    assert forall|g: int| 0 <= g < k + 1 implies has_name(
                        names@,
                        (#[trigger] games@[g]).WinnerName@,
                    ) by {
                        if g == k {
                            assert(names@[j as int]@ == games@[g].WinnerName@);
                        } else {
                            assert(has_name(before_names, games@[g].WinnerName@));
                        }
                    }
                }
            },
            None => {
                proof {
                    assert forall|g: int| 0 <= g < k implies (#[trigger] games@[g]).WinnerName@
                        != winner@ by {
                        assert(has_name(before_names, games@[g].WinnerName@));
                    }
                    lemma_no_win_without_game(games@, winner@, k as int);
                }
                names.push(winner.clone());
                wins.push(1);
                proof {
                    let last = before_names.len() as int;
                    assert(names@[last]@ == winner@);
                    assert forall|i: int, j: int| 0 <= i < j < names@.len() implies (#[trigger] names@[i])@
                        != (#[trigger] names@[j])@ by {
                        if j == last {
                            assert(before_names[i]@ != winner@);
                        } else {
                            assert(before_names[i]@ != before_names[j]@);
                        }
                    }
                    assert forall|i: int| 0 <= i < names@.len() implies (#[trigger] wins@[i]) >= 1
                        && wins@[i] == wins_upto(games@, names@[i]@, k + 1) by {
                        if i < last {
                            assert(before_wins[i] >= 1);
                            assert(before_names[i]@ != winner@);
                        }
                    }
                    assert forall|g: int| 0 <= g < k + 1 implies has_name(
                        names@,
                        (#[trigger] games@[g]).WinnerName@,
                    ) by {
                        if g == k {
                            assert(names@[last]@ == games@[g].WinnerName@);
                        } else {
                            assert(has_name(before_names, games@[g].WinnerName@));
                            let i = choose|i: int|
                                0 <= i < before_names.len() && (#[trigger] before_names[i])@
                                    == games@[g].WinnerName@;
                            assert(names@[i]@ == games@[g].WinnerName@);
                        }
                    }
                }
            },
        }
        k = k + 1;
    }
    let mut table: Vec<WinTotal> = Vec::new();
    // For every line of the table, the place of the tally it was made from;
    // for every tally used so far, the place of its line.
    let ghost mut source: Seq<int> = Seq::empty();
    let ghost mut target: Seq<int> = Seq::empty();
    let mut i: usize = 0;
    while i < names.len()
        invariant
            i <= names.len(),
            k == games.len(),
            tallies_upto(games@, names@, wins@, k as int),
            table@.len() == i,
            source.len() == i,
            target.len() == i,
            sorted_by_wins(table@),
            forall|p: int|
                0 <= p < i ==> 0 <= (#[trigger] source[p]) < i && target[source[p]] == p
                    && line_matches(table@[p], names@, wins@, source[p]),
            forall|j: int| 0 <= j < i ==> 0 <= (#[trigger] target[j]) < i && source[target[j]] == j,
        decreases names.len() - i,
    {
        let count = wins[i];
        let mut pos: usize = 0;
        while pos < table.len() && table[pos].wins <= count
            invariant
                pos <= table.len(),
                forall|p: int| 0 <= p < pos ==> (#[trigger] table@[p]).wins <= count,
            decreases table.len() - pos,
        {
            pos = pos + 1;
        }
        let ghost before = table@;
        let ghost old_source = source;
        let ghost old_target = target;
        let line = WinTotal { name: names[i].clone(), wins: count };
        table.insert(pos, line);
        proof {
            let after = table@;
            source = old_source.insert(pos as int, i as int);
            target = Seq::new(
                (i + 1) as nat,
                |j: int|
                    if j == i {
                        pos as int
                    } else if old_target[j] < pos {
                        old_target[j]
                    } else {
                        old_target[j] + 1
                    },
            );
            assert forall|p: int, q: int| 0 <= p < q < after.len() implies (#[trigger] after[p]).wins
                <= (#[trigger] after[q]).wins by {
                if p < pos && q > pos {
                    assert(before[p].wins <= before[q - 1].wins);
                } else if p < pos && q < pos {
                    assert(before[p].wins <= before[q].wins);
                } else if p > pos {
                    assert(before[p - 1].wins <= before[q - 1].wins);
                } else if p == pos {
                    assert(before[pos as int].wins <= before[q - 1].wins);
                }
            }
            assert forall|p: int| 0 <= p < i + 1 implies 0 <= (#[trigger] source[p]) < i + 1
                && target[source[p]] == p && line_matches(after[p], names@, wins@, source[p]) by {
                if p < pos {
                    assert(source[p] == old_source[p] && after[p] == before[p]);
                } else if p > pos {
                    assert(source[p] == old_source[p - 1] && after[p] == before[p - 1]);
                }
            }
            assert forall|j: int| 0 <= j < i + 1 implies 0 <= (#[trigger] target[j]) < i + 1
                && source[target[j]] == j by {
                if j < i {
                    assert(old_source[old_target[j]] == j);
                }
            }
        }
        i = i + 1;
    }
    proof {
        assert forall|p: int, q: int| 0 <= p < q < table@.len() implies (#[trigger] table@[p]).name@
            != (#[trigger] table@[q]).name@ by {
            if source[p] == source[q] {
                assert(target[source[p]] == p && target[source[q]] == q);
            } else if source[p] < source[q] {
                assert(names@[source[p]]@ != names@[source[q]]@);
            } else {
                assert(names@[source[q]]@ != names@[source[p]]@);
            }
        }
        assert forall|p: int| 0 <= p < table@.len() implies (#[trigger] table@[p]).wins >= 1
            && table@[p].wins == wins_upto(games@, table@[p].name@, games@.len() as int) by {
            assert(line_matches(table@[p], names@, wins@, source[p]));
            assert(wins@[source[p]] >= 1);
        }
        assert forall|g: int| 0 <= g < games@.len() implies has_line(
            table@,
            (#[trigger] games@[g]).WinnerName@,
        ) by {
            assert(has_name(names@, games@[g].WinnerName@));
            let j = choose|j: int|
                0 <= j < names@.len() && (#[trigger] names@[j])@ == games@[g].WinnerName@;
            let p = target[j];
            assert(source[p] == j);
            assert(line_matches(table@[p], names@, wins@, source[p]));
            assert(table@[p].name@ == games@[g].WinnerName@);
        }
    }
    table
}

} // verus!

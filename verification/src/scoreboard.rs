//! The points of each player, by name.

use crate::text::same_text;
use vstd::prelude::*;

verus! {

/// One player with the points gathered so far.
#[derive(Debug)]
pub struct PlayerScore {
    pub name: String,
    pub score: u32,
}

/// The points of all players. As a mathematical value it is a map from
/// a player's name to the points.
#[derive(Debug)]
pub struct Scoreboard {
    scores: Vec<PlayerScore>,
}

/// The names of `players`, in order.
pub open spec fn names(players: Seq<PlayerScore>) -> Seq<Seq<char>> {
    players.map_values(|p: PlayerScore| p.name@)
}

/// In a sequence without repetition, an element is found where it stands.
proof fn lemma_found_where_it_stands(s: Seq<Seq<char>>, i: int)
    requires
        s.no_duplicates(),
        0 <= i < s.len(),
    ensures
        s.contains(s[i]),
        s.index_of(s[i]) == i,
{
    let j = s.index_of(s[i]);
    assert(0 <= j < s.len() && s[j] == s[i]);
}

impl View for Scoreboard {
    type V = Map<Seq<char>, nat>;

    closed spec fn view(&self) -> Map<Seq<char>, nat> {
        Map::new(
            |name: Seq<char>| names(self.scores@).contains(name),
            |name: Seq<char>| self.scores@[names(self.scores@).index_of(name)].score as nat,
        )
    }
}

impl Scoreboard {
    /// What holds of every scoreboard that this library hands out: no
    /// player is listed twice.
    pub closed spec fn wf(&self) -> bool {
        names(self.scores@).no_duplicates()
    }

    /// The points of the player `name`, zero for a player not listed.
    pub open spec fn points(&self, name: Seq<char>) -> nat {
        if self@.contains_key(name) {
            self@[name]
        } else {
            0
        }
    }

    /// A scoreboard without players.
    pub fn new() -> (board: Self)
        ensures
            board.wf(),
            board@ == Map::<Seq<char>, nat>::empty(),
    {
        let board = Scoreboard { scores: Vec::new() };
        assert(board@ =~= Map::<Seq<char>, nat>::empty());
        board
    }

    /// Where the player `name` is listed, if at all.
    fn position(&self, name: &str) -> (found: Option<usize>)
        ensures
            match found {
                Some(i) => i < self.scores@.len() && names(self.scores@)[i as int] == name@,
                None => !names(self.scores@).contains(name@),
            },
    {
        let mut i: usize = 0;
        while i < self.scores.len()
            invariant
                i <= self.scores.len(),
                names(self.scores@).len() == self.scores.len(),
                forall|k: int| 0 <= k < i ==> names(self.scores@)[k] != name@,
            decreases self.scores.len() - i,
        {
            if same_text(self.scores[i].name.as_str(), name) {
                return Some(i);
            }
            i += 1;
        }
        None
    }

    /// Adds `score` to the points of the player `player_name`, who is
    /// listed with no points first if not listed yet. The sum must fit.
    pub fn update_score(&mut self, player_name: &str, score: u32)
        requires
            old(self).wf(),
            old(self).points(player_name@) + score <= u32::MAX,
        ensures
            final(self).wf(),
            final(self)@ == old(self)@.insert(
                player_name@,
                (old(self).points(player_name@) + score) as nat,
            ),
    {
        let ghost before = self.scores@;
        let ghost sum = (old(self).points(player_name@) + score) as nat;
        match self.position(player_name) {
            Some(i) => {
                proof {
                    lemma_found_where_it_stands(names(before), i as int);
                }
                let total = self.scores[i].score + score;
                self.scores.set(i, PlayerScore { name: player_name.to_owned(), score: total });
                proof {
                    assert(names(self.scores@) =~= names(before));
                    assert forall|name: Seq<char>| self@.contains_key(name) implies self@[name]
                        == old(self)@.insert(player_name@, sum)[name] by {
                        let k = names(before).index_of(name);
                        lemma_found_where_it_stands(names(before), k);
                    }
                    assert(self@ =~= old(self)@.insert(player_name@, sum));
                }
            },
            None => {
                self.scores.push(PlayerScore { name: player_name.to_owned(), score });
                proof {
                    let after = names(self.scores@);
                    assert(after =~= names(before).push(player_name@));
                    lemma_found_where_it_stands(after, before.len() as int);
                    assert forall|name: Seq<char>| self@.contains_key(name) implies self@[name]
                        == old(self)@.insert(player_name@, sum)[name] by {
                        let k = after.index_of(name);
                        lemma_found_where_it_stands(after, k);
                        if k < before.len() {
                            assert(names(before)[k] == name);
                            lemma_found_where_it_stands(names(before), k);
                        }
                    }
                    assert forall|name: Seq<char>|
                        old(self)@.insert(player_name@, sum).contains_key(
                            name,
                        ) implies self@.contains_key(name) by {
                        if name != player_name@ {
                            let k = names(before).index_of(name);
                            assert(after[k] == name);
                        }
                    }
                    assert(self@ =~= old(self)@.insert(player_name@, sum));
                }
            },
        }
    }

    /// The points of the player `name`, if listed.
    pub fn score_of(&self, name: &str) -> (points: Option<u32>)
        requires
            self.wf(),
        ensures
            match points {
                Some(p) => self@.contains_key(name@) && self@[name@] == p,
                None => !self@.contains_key(name@),
            },
    {
        match self.position(name) {
            Some(i) => {
                proof {
                    lemma_found_where_it_stands(names(self.scores@), i as int);
                }
                Some(self.scores[i].score)
            },
            None => None,
        }
    }

    /// The players, each once.
    pub fn players(&self) -> (players: &Vec<PlayerScore>)
        requires
            self.wf(),
        ensures
            names(players@).no_duplicates(),
            forall|name: Seq<char>|
                self@.contains_key(name) <==> #[trigger] names(players@).contains(name),
            forall|i: int|
                0 <= i < players@.len() ==> self@[#[trigger] names(players@)[i]]
                    == players@[i].score,
    {
        &self.scores
    }
}

} // verus!

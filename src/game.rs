//! In-game objectives whose completion the token contract rewards, with
//! the count of winners of each and the rarity that the count implies.
use crate::error::Error;
use vstd::prelude::*;

verus! {

/// How rare an objective is, by how many players have achieved it.
#[derive(Clone, Copy, Debug, PartialEq, Eq, Structural)]
pub enum Rarity {
    Common,
    Rare,
    Legendary,
}

pub open spec fn rarity_for(winner_count: int) -> Rarity {
    if winner_count <= 1000 {
        Rarity::Legendary
    } else if winner_count <= 20000 {
        Rarity::Rare
    } else {
        Rarity::Common
    }
}

pub struct Objective {
    pub title: String,
    /// Tokens awarded on completion.
    pub reward: u128,
}

pub struct ObjectiveMetadata {
    /// A link to a file that describes the objective.
    pub reference: String,
    /// The SHA-256 hash of that file.
    pub reference_hash: Vec<u8>,
}

#[derive(Clone, Copy, Debug, PartialEq, Eq, Structural)]
pub struct ObjectiveStats {
    pub winner_count: u128,
    pub rarity: Rarity,
}

pub struct JsonObjective {
    pub objective: Objective,
    pub obj_metadata: ObjectiveMetadata,
    pub stats: ObjectiveStats,
}

/// The stats after one more player achieved the objective.
pub open spec fn bumped(s: ObjectiveStats) -> ObjectiveStats {
    ObjectiveStats {
        winner_count: (s.winner_count + 1) as u128,
        rarity: rarity_for(s.winner_count + 1),
    }
}

/// The stats after the objectives at `indexes` were achieved, one after another.
pub open spec fn apply_wins(stats: Seq<ObjectiveStats>, indexes: Seq<u8>) -> Seq<ObjectiveStats>
    decreases indexes.len(),
{
    if indexes.len() == 0 {
        stats
    } else {
        let before = apply_wins(stats, indexes.drop_last());
        let i = indexes.last() as int;
        before.update(i, bumped(before[i]))
    }
}

/// The sum of the rewards of the objectives at `indexes`.
pub open spec fn rewards_of(objectives: Seq<Objective>, indexes: Seq<u8>) -> int
    decreases indexes.len(),
{
    if indexes.len() == 0 {
        0
    } else {
        rewards_of(objectives, indexes.drop_last()) + objectives[indexes.last() as int].reward
    }
}

/// A vector of `n` copies of `byte`.
pub fn filled(byte: u8, n: usize) -> (r: Vec<u8>)
    ensures
        r@ == Seq::new(n as nat, |i: int| byte),
{
    let mut v: Vec<u8> = Vec::new();
    let mut i: usize = 0;
    while i < n
        invariant
            i <= n,
            v@ == Seq::new(i as nat, |k: int| byte),
        decreases n - i,
    {
        v.push(byte);
        i = i + 1;
        assert(v@ =~= Seq::new(i as nat, |k: int| byte));
    }
    v
}

impl Objective {
    pub fn default_list() -> (r: Vec<Objective>)
        ensures
            r@.len() == 2,
            r@[0].reward == 1000 && r@[0].title@ == "Objective1"@,
            r@[1].reward == 2000 && r@[1].title@ == "Objective2"@,
    {
        vec![
            Objective { title: "Objective1".to_owned(), reward: 1000 },
            Objective { title: "Objective2".to_owned(), reward: 2000 },
        ]
    }
}

impl ObjectiveMetadata {
    pub fn default_list() -> (r: Vec<ObjectiveMetadata>)
        ensures
            r@.len() == 2,
            r@[0].reference@ == "ipfs://achievement1"@ && r@[0].reference_hash@ == Seq::new(
                32,
                |i: int| 1u8,
            ),
            r@[1].reference@ == "ipfs://achievement2"@ && r@[1].reference_hash@ == Seq::new(
                32,
                |i: int| 2u8,
            ),
    {
        vec![
            ObjectiveMetadata { reference: "ipfs://achievement1".to_owned(), reference_hash: filled(1, 32) },
            ObjectiveMetadata { reference: "ipfs://achievement2".to_owned(), reference_hash: filled(2, 32) },
        ]
    }
}

impl ObjectiveStats {
    pub fn default_list() -> (r: Vec<ObjectiveStats>)
        ensures
            r@ == seq![
                ObjectiveStats { winner_count: 0, rarity: Rarity::Common },
                ObjectiveStats { winner_count: 0, rarity: Rarity::Common },
            ],
    {
        let r = vec![
            ObjectiveStats { winner_count: 0, rarity: Rarity::Common },
            ObjectiveStats { winner_count: 0, rarity: Rarity::Common },
        ];
        assert(r@ =~= seq![
            ObjectiveStats { winner_count: 0, rarity: Rarity::Common },
            ObjectiveStats { winner_count: 0, rarity: Rarity::Common },
        ]);
        r
    }
}

pub struct CatchObjectives {
    pub objectives: Vec<Objective>,
    /// In the order of `objectives`.
    pub obj_metadata: Vec<ObjectiveMetadata>,
    /// In the order of `objectives`.
    pub stats: Vec<ObjectiveStats>,
}

impl CatchObjectives {
    /// The three lists run in step.
    pub open spec fn wf(&self) -> bool {
        self.stats@.len() == self.objectives@.len() && self.obj_metadata@.len()
            == self.objectives@.len()
    }

    pub fn default() -> (r: CatchObjectives)
        ensures
            r.wf(),
            r.objectives@.len() == 2,
            r.stats@ == seq![
                ObjectiveStats { winner_count: 0, rarity: Rarity::Common },
                ObjectiveStats { winner_count: 0, rarity: Rarity::Common },
            ],
    {
        CatchObjectives {
            objectives: Objective::default_list(),
            obj_metadata: ObjectiveMetadata::default_list(),
            stats: ObjectiveStats::default_list(),
        }
    }

    /// Counts one more winner of the objective at `index` and sets its
    /// rarity from the new count.
    pub fn update_stats(&mut self, index: u8) -> (r: Result<(), Error>)
        requires
            old(self).wf(),
        ensures
            final(self).wf(),
            final(self).objectives == old(self).objectives,
            final(self).obj_metadata == old(self).obj_metadata,
            index >= old(self).stats@.len() ==> r == Err::<(), Error>(Error::InvalidObjective)
                && *final(self) == *old(self),
            index < old(self).stats@.len() && old(self).stats@[index as int].winner_count
                == u128::MAX ==> r == Err::<(), Error>(Error::Overflow) && *final(self) == *old(self),
            index < old(self).stats@.len() && old(self).stats@[index as int].winner_count
                < u128::MAX ==> r is Ok && final(self).stats@ == old(self).stats@.update(
                index as int,
                bumped(old(self).stats@[index as int]),
            ),
    {
        let i = index as usize;
        if i >= self.stats.len() {
            return Err(Error::InvalidObjective);
        }
        let count = self.stats[i].winner_count;
        if count == u128::MAX {
            return Err(Error::Overflow);
        }
        let new_count = count + 1;
        let rarity = if new_count <= 1000 {
            Rarity::Legendary
        } else if new_count <= 20000 {
            Rarity::Rare
        } else {
            Rarity::Common
        };
        self.stats.set(i, ObjectiveStats { winner_count: new_count, rarity });
        Ok(())
    }
}

/// The achievements that the game starts with.
pub struct Achievement {
    pub title: String,
    /// Tokens awarded on completion.
    pub reward: u128,
    pub winner_count: u128,
}

impl Achievement {
    pub fn new() -> (r: Vec<Achievement>)
        ensures
            r@.len() == 2,
            r@[0].title@ == "Achievement - 1"@ && r@[0].reward == 5000 && r@[0].winner_count == 0,
            r@[1].title@ == "Achievement - 2"@ && r@[1].reward == 10000 && r@[1].winner_count == 0,
    {
        vec![
            Achievement { title: "Achievement - 1".to_owned(), reward: 5000, winner_count: 0 },
            Achievement { title: "Achievement - 2".to_owned(), reward: 10000, winner_count: 0 },
        ]
    }
}


/// A copy of a byte vector.
pub fn copy_bytes(v: &Vec<u8>) -> (r: Vec<u8>)
    ensures
        r@ == v@,
{
    let mut out: Vec<u8> = Vec::new();
    let mut i: usize = 0;
    while i < v.len()
        invariant
            i <= v@.len(),
            out@ == v@.take(i as int),
        decreases v@.len() - i,
    {
        out.push(v[i]);
        i = i + 1;
        assert(out@ =~= v@.take(i as int));
    }
    assert(v@.take(i as int) =~= v@);
    out
}

impl CatchObjectives {
    /// The objectives from position `from_index` on, at most `limit` of
    /// them, each with its metadata and stats.
    pub fn get_objectives(&self, from_index: u8, limit: u8) -> (r: Vec<JsonObjective>)
        requires
            self.wf(),
        ensures
            r@.len() == (if from_index as int >= self.objectives@.len() {
                0
            } else if self.objectives@.len() - from_index < limit {
                self.objectives@.len() - from_index
            } else {
                limit as int
            }),
            forall|k: int|
                0 <= k < r@.len() ==> {
                    let i = from_index + k;
                    &&& (#[trigger] r@[k]).objective.title == self.objectives@[i].title
                    &&& r@[k].objective.reward == self.objectives@[i].reward
                    &&& r@[k].obj_metadata.reference == self.obj_metadata@[i].reference
                    &&& r@[k].obj_metadata.reference_hash@ == self.obj_metadata@[i].reference_hash@
                    &&& r@[k].stats == self.stats@[i]
                },
    {
        let n = self.objectives.len();
        let mut out: Vec<JsonObjective> = Vec::new();
        let mut i = from_index as usize;
        let end: usize = if n <= from_index as usize {
            from_index as usize
        } else if n - (from_index as usize) < limit as usize {
            n
        } else {
            from_index as usize + limit as usize
        };
        while i < end
            invariant
                self.wf(),
                n == self.objectives@.len(),
                from_index <= i <= end,
                end <= n || end == from_index,
                out@.len() == i - from_index,
                forall|k: int|
                    0 <= k < out@.len() ==> {
                        let j = from_index + k;
                        &&& (#[trigger] out@[k]).objective.title == self.objectives@[j].title
                        &&& out@[k].objective.reward == self.objectives@[j].reward
                        &&& out@[k].obj_metadata.reference == self.obj_metadata@[j].reference
                        &&& out@[k].obj_metadata.reference_hash@ == self.obj_metadata@[j].reference_hash@
                        &&& out@[k].stats == self.stats@[j]
                    },
            decreases end - i,
        {
            let o = &self.objectives[i];
            let m = &self.obj_metadata[i];
            out.push(JsonObjective {
                objective: Objective { title: o.title.clone(), reward: o.reward },
                obj_metadata: ObjectiveMetadata {
                    reference: m.reference.clone(),
                    reference_hash: copy_bytes(&m.reference_hash),
                },
                stats: self.stats[i],
            });
            i = i + 1;
        }
        out
    }
}

pub struct AchievementMetadata {
    pub reference: String,
    pub reference_hash: Vec<u8>,
}

impl AchievementMetadata {
    pub fn new() -> (r: Vec<AchievementMetadata>)
        ensures
            r@.len() == 2,
            r@[0].reference@ == "ipfs://achievement1"@ && r@[0].reference_hash@ == Seq::new(
                32,
                |i: int| 1u8,
            ),
            r@[1].reference@ == "ipfs://achievement1"@ && r@[1].reference_hash@ == Seq::new(
                32,
                |i: int| 2u8,
            ),
    {
        vec![
            AchievementMetadata { reference: "ipfs://achievement1".to_owned(), reference_hash: filled(1, 32) },
            AchievementMetadata { reference: "ipfs://achievement1".to_owned(), reference_hash: filled(2, 32) },
        ]
    }
}

} // verus!

use vstd::prelude::*;
use vstd::string::*;

use crate::json::{json_member_text, member_text};
use crate::text::same_text;

verus! {

/// The characters of each string of `v`.
pub open spec fn texts(v: Seq<String>) -> Seq<Seq<char>> {
    v.map_values(|s: String| s@)
}

/// A connected player: their name and, once it is known, their platform id.
#[derive(Debug)]
pub struct Player {
    pub name: String,
    pub uuid: Option<String>,
}

/// The players currently connected to one instance, at most one entry per name, in the order
/// they joined.
#[derive(Debug)]
pub struct PlayerRegistry {
    players: Vec<Player>,
}

impl PlayerRegistry {
    /// The names of the connected players, in the order they joined.
    pub closed spec fn names(&self) -> Seq<Seq<char>> {
        self.players@.map_values(|p: Player| p.name@)
    }

    /// The platform id recorded for the player at each position of `names`.
    pub closed spec fn uuids(&self) -> Seq<Option<Seq<char>>> {
        self.players@.map_values(
            |p: Player|
                match p.uuid {
                    Some(u) => Some(u@),
                    None => None,
                },
        )
    }

    /// The set of connected players' names.
    pub open spec fn online(&self) -> Set<Seq<char>> {
        Set::new(|n: Seq<char>| self.names().contains(n))
    }

    /// No name appears twice, and every name has one id slot.
    pub open spec fn wf(&self) -> bool {
        &&& self.names().no_duplicates()
        &&& self.uuids().len() == self.names().len()
    }

    /// An empty registry.
    pub fn new() -> (r: PlayerRegistry)
        ensures
            r.wf(),
            r.names() == Seq::<Seq<char>>::empty(),
    {
        let r = PlayerRegistry { players: Vec::new() };
        assert(r.names() =~= Seq::<Seq<char>>::empty());
        r
    }

    /// The number of connected players.
    pub fn len(&self) -> (r: usize)
        requires
            self.wf(),
        ensures
            r == self.names().len(),
    {
        self.players.len()
    }

    /// The position of the player called `name`.
    fn position(&self, name: &str) -> (r: Option<usize>)
        ensures
            match r {
                Some(i) => i < self.names().len() && self.names()[i as int] == name@,
                None => !self.names().contains(name@),
            },
    {
        let mut i: usize = 0;
        while i < self.players.len()
            invariant
                i <= self.players@.len(),
                forall|k: int| 0 <= k < i ==> self.names()[k] != name@,
            decreases self.players@.len() - i,
        {
            if same_text(self.players[i].name.as_str(), name) {
                return Some(i);
            }
            i = i + 1;
        }
        None
    }

    /// Whether a player called `name` is connected.
    pub fn contains(&self, name: &str) -> (r: bool)
        ensures
            r == self.online().contains(name@),
    {
        self.position(name).is_some()
    }

    /// Records that `player` connected. A name already present keeps its entry; the result says
    /// whether the player was added.
    pub fn add_player(&mut self, player: Player) -> (r: bool)
        requires
            old(self).wf(),
        ensures
            final(self).wf(),
            r == !old(self).online().contains(player.name@),
            r ==> final(self).names() == old(self).names().push(player.name@),
            !r ==> final(self).names() == old(self).names(),
            final(self).online() == old(self).online().insert(player.name@),
    {
        match self.position(player.name.as_str()) {
            Some(_) => {
                assert(self.online() =~= self.online().insert(player.name@));
                false
            },
            None => {
                let ghost before = self.names();
                self.players.push(player);
                assert(self.names() =~= before.push(player.name@));
                assert(self.uuids().len() == self.names().len());
                assert(self.online() =~= old(self).online().insert(player.name@)) by {
                    assert forall|n: Seq<char>| #[trigger]
                        self.online().contains(n) == old(self).online().insert(
                            player.name@,
                        ).contains(n) by {
                        if before.contains(n) {
                            let k = choose|k: int| 0 <= k < before.len() && before[k] == n;
                            assert(self.names()[k] == n);
                        }
                        if n == player.name@ {
                            assert(self.names()[before.len() as int] == n);
                        }
                        if self.names().contains(n) {
                            let k = choose|k: int|
                                0 <= k < self.names().len() && self.names()[k] == n;
                            if k < before.len() {
                                assert(before[k] == n);
                            }
                        }
                    }
                }
                true
            },
        }
    }

    /// Records the platform id of the connected player called `name`, if there is one.
    pub fn set_uuid(&mut self, name: &str, uuid: String) -> (r: bool)
        requires
            old(self).wf(),
        ensures
            final(self).wf(),
            final(self).names() == old(self).names(),
            r == old(self).online().contains(name@),
            r ==> exists|i: int|
                0 <= i < final(self).names().len() && final(self).names()[i] == name@
                    && #[trigger] final(self).uuids()[i] == Some(uuid@),
    {
        match self.position(name) {
            Some(i) => {
                let ghost before = self.names();
                let ghost ub = self.uuids();
                let old_name = self.players[i].name.clone();
                self.players.set(i, Player { name: old_name, uuid: Some(uuid) });
                assert(self.names() =~= before);
                assert(self.uuids()[i as int] == Some(uuid@));
                assert(self.uuids().len() == ub.len());
                true
            },
            None => false,
        }
    }

    /// Records that the player called `name` disconnected.
    pub fn remove_by_name(&mut self, name: &str) -> (r: bool)
        requires
            old(self).wf(),
        ensures
            final(self).wf(),
            r == old(self).online().contains(name@),
            final(self).online() == old(self).online().remove(name@),
    {
        match self.position(name) {
            Some(i) => {
                let ghost before = self.names();
                let ghost ub = self.uuids();
                self.players.remove(i);
                assert(self.names() =~= before.remove(i as int));
                assert(self.uuids() =~= ub.remove(i as int));
                assert(self.online() =~= old(self).online().remove(name@)) by {
                    assert forall|n: Seq<char>| #[trigger]
                        self.online().contains(n) == old(self).online().remove(name@).contains(
                            n,
                        ) by {
                        if n == name@ {
                            if self.names().contains(n) {
                                let k = choose|k: int|
                                    0 <= k < self.names().len() && self.names()[k] == n;
                                if k < i {
                                    assert(before[k] == n);
                                } else {
                                    assert(before[k + 1] == n);
                                }
                            }
                        } else {
                            if before.contains(n) {
                                let k = choose|k: int| 0 <= k < before.len() && before[k] == n;
                                if k < i {
                                    assert(self.names()[k] == n);
                                } else {
                                    assert(self.names()[k - 1] == n);
                                }
                            }
                        }
                    }
                }
                true
            },
            None => {
                assert(self.online() =~= old(self).online().remove(name@));
                false
            },
        }
    }

    /// Forgets every player.
    pub fn clear(&mut self)
        ensures
            final(self).wf(),
            final(self).names() == Seq::<Seq<char>>::empty(),
            final(self).online() == Set::<Seq<char>>::empty(),
    {
        self.players.clear();
        assert(self.names() =~= Seq::<Seq<char>>::empty());
        assert(self.uuids() =~= Seq::<Option<Seq<char>>>::empty());
        assert(self.online() =~= Set::<Seq<char>>::empty());
    }

    /// The names of the connected players, in the order they joined.
    pub fn player_names(&self) -> (r: Vec<String>)
        ensures
            texts(r@) == self.names(),
    {
        let mut r: Vec<String> = Vec::new();
        let mut i: usize = 0;
        while i < self.players.len()
            invariant
                i <= self.players@.len(),
                r@.len() == i,
                texts(r@) == self.names().subrange(0, i as int),
            decreases self.players@.len() - i,
        {
            let ghost before = r@;
            r.push(self.players[i].name.clone());
            assert(r@ =~= before.push(self.players@[i as int].name));
            assert forall|k: int| 0 <= k < i + 1 implies #[trigger] texts(r@)[k] == self.names().subrange(0, i + 1)[k] by {
                assert(texts(r@)[k] == r@[k]@);
                assert(self.names()[k] == self.players@[k].name@);
                if k == i {
                    assert(r@[k] == self.players@[k].name);
                } else {
                    assert(r@[k] == before[k]);
                    assert(texts(before)[k] == self.names().subrange(
                        0,
                        i as int,
                    )[k]);
                }
            }
            assert(texts(r@) =~= self.names().subrange(0, i + 1));
            i = i + 1;
        }
        assert(self.names().subrange(0, i as int) =~= self.names());
        r
    }
}

/// The player id in a profile document: the string member `id` of the JSON document `body`.
pub fn profile_id(body: &str) -> (r: Option<String>)
    ensures
        match r {
            Some(t) => json_member_text(body@, "id"@) == Some(t@),
            None => json_member_text(body@, "id"@) is None,
        },
{
    member_text(body, "id")
}

} // verus!

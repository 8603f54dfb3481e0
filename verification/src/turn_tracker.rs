//! The rotation: the players still eligible to move in the current game,
//! in joining order, and a cursor on the one whose turn it is.

use crate::gametraits::{has_name, user_views, User, UserView};
use itertools::Itertools;
use vstd::prelude::*;

verus! {

/// What a `TurnTracker` is in contracts: the players in rotation
/// order and the position of the cursor, which stands on the player
/// whose turn it is. The cursor of an empty rotation stands past the end.
pub struct TurnTrackerView {
    pub players: Seq<UserView>,
    pub current: nat,
}

/// Whether any player goes by `name`.
pub open spec fn has_player(players: Seq<UserView>, name: Seq<char>) -> bool {
    exists|j: int| 0 <= j < players.len() && (#[trigger] players[j]).name == name
}

/// The players that do not go by `name`, in their old order.
pub open spec fn without_name(players: Seq<UserView>, name: Seq<char>) -> Seq<UserView> {
    players.filter(|u: UserView| u.name != name)
}

/// How many of the players before position `upto` do not go by `name`.
pub open spec fn staying_before(players: Seq<UserView>, name: Seq<char>, upto: int) -> nat {
    without_name(players.take(upto), name).len()
}

impl TurnTrackerView {
    /// The rotation after `user` joined at the end.
    pub open spec fn added(self, user: UserView) -> TurnTrackerView {
        TurnTrackerView { players: self.players.push(user), current: self.current }
    }

    /// The rotation after every player called `name` left. The others
    /// keep their order. The cursor stays on the player it stood on
    /// where that player stays. Where that player left, it goes to the
    /// nearest player before, going round, so that the turn passes next
    /// to whoever followed in the old order. A cursor past the end stays
    /// where it is.
    pub open spec fn removed(self, name: Seq<char>) -> TurnTrackerView {
        let kept = without_name(self.players, name);
        let before = staying_before(self.players, name, self.current as int);
        TurnTrackerView {
            players: kept,
            current: if self.current >= self.players.len() {
                self.current
            } else if self.players[self.current as int].name != name {
                before
            } else if before > 0 {
                (before - 1) as nat
            } else if kept.len() > 0 {
                (kept.len() - 1) as nat
            } else {
                0
            },
        }
    }

    /// The position the cursor moves to when the turn passes on.
    pub open spec fn next_position(self) -> nat {
        if self.players.len() == 0 {
            self.current
        } else {
            ((self.current + 1) as int % (self.players.len() as int)) as nat
        }
    }

    /// The rotation after the turn passed on.
    pub open spec fn advanced(self) -> TurnTrackerView {
        TurnTrackerView { players: self.players, current: self.next_position() }
    }

    /// The player who gets the turn when it passes on, if anyone is left.
    pub open spec fn next_player(self) -> Option<UserView> {
        if self.players.len() == 0 {
            None
        } else {
            Some(self.players[self.next_position() as int])
        }
    }
}

/// Where the player at position `at` stands once `name` left, if that
/// player stays: behind those before it who stay. A player who leaves
/// takes no place.
pub proof fn lemma_place_after_removal(players: Seq<UserView>, name: Seq<char>, at: int)
    requires
        0 <= at < players.len(),
    ensures
        staying_before(players, name, at) <= staying_before(players, name, at + 1)
            <= without_name(players, name).len(),
        players[at].name != name ==> {
            &&& staying_before(players, name, at + 1) == staying_before(players, name, at) + 1
            &&& without_name(players, name)[staying_before(players, name, at) as int]
                == players[at]
        },
        players[at].name == name ==> staying_before(players, name, at + 1) == staying_before(
            players,
            name,
            at,
        ),
{
    let keep = |u: UserView| u.name != name;
    let head = players.take(at);
    let wider = players.take(at + 1);
    let tail = players.skip(at + 1);
    assert(wider =~= head.push(players[at]));
    head.lemma_filter_push(players[at], keep);
    assert(players =~= wider + tail);
    Seq::filter_distributes_over_add(wider, tail, keep);
}

/// All who stay stand before the end.
pub proof fn lemma_staying_before_end(players: Seq<UserView>, name: Seq<char>)
    ensures
        staying_before(players, name, players.len() as int) == without_name(players, name).len(),
        staying_before(players, name, 0) == 0,
{
    assert(players.take(players.len() as int) =~= players);
    players.take(0).lemma_filter_len(|u: UserView| u.name != name);
}

/// The player on turn stays on turn when somebody else leaves.
pub proof fn law_player_on_turn_stays(tracker: TurnTrackerView, name: Seq<char>)
    requires
        tracker.current < tracker.players.len(),
        tracker.players[tracker.current as int].name != name,
    ensures
        tracker.removed(name).current < tracker.removed(name).players.len(),
        tracker.removed(name).players[tracker.removed(name).current as int]
            == tracker.players[tracker.current as int],
{
    lemma_place_after_removal(tracker.players, name, tracker.current as int);
}

/// The turn passes on in the old order: whoever followed the player on
/// turn still gets the next turn after `name` left, unless that is who
/// left.
pub proof fn law_turn_passes_in_old_order(tracker: TurnTrackerView, name: Seq<char>)
    requires
        tracker.current < tracker.players.len(),
        tracker.next_player() matches Some(next) && next.name != name,
    ensures
        tracker.removed(name).next_player() == tracker.next_player(),
{
    let players = tracker.players;
    let len = players.len() as int;
    let current = tracker.current as int;
    let next = tracker.next_position() as int;
    let after = tracker.removed(name);
    lemma_place_after_removal(players, name, current);
    lemma_place_after_removal(players, name, next);
    lemma_staying_before_end(players, name);
    let kept = after.players.len() as int;
    assert(kept > 0);
    if current + 1 < len {
        vstd::arithmetic::div_mod::lemma_small_mod((current + 1) as nat, len as nat);
        assert(next == current + 1);
        let place = staying_before(players, name, next) as int;
        assert(after.players[place] == players[next]);
        if players[current].name == name && staying_before(players, name, current) == 0 {
            assert(place == 0);
            assert(after.current + 1 == kept);
            vstd::arithmetic::div_mod::lemma_mod_self_0(kept);
        } else {
            assert(after.current + 1 == place);
            vstd::arithmetic::div_mod::lemma_small_mod(place as nat, kept as nat);
        }
        assert(after.next_position() == place);
    } else {
        vstd::arithmetic::div_mod::lemma_mod_self_0(len);
        assert(next == 0);
        assert(after.players[0] == players[0]);
        assert(staying_before(players, name, current + 1) == kept);
        assert(after.current + 1 == kept);
        vstd::arithmetic::div_mod::lemma_mod_self_0(kept);
        assert(after.next_position() == 0);
    }
}

/// Nobody in the rotation goes by a name that was taken out.
pub proof fn law_removed_name_is_gone(tracker: TurnTrackerView, name: Seq<char>)
    ensures
        !has_player(tracker.removed(name).players, name),
        !has_player(tracker.removed(name).advanced().players, name),
        tracker.removed(name).next_player() matches Some(next) ==> next.name != name,
{
    let keep = |u: UserView| u.name != name;
    let kept = tracker.removed(name).players;
    assert forall|j: int| 0 <= j < kept.len() implies (#[trigger] kept[j]).name != name by {
        tracker.players.lemma_filter_pred(keep, j);
    }
}

/// A turn goes to a player in the rotation, and passing the turn on
/// leaves the rotation as it is.
pub proof fn law_turn_goes_to_a_member(tracker: TurnTrackerView)
    ensures
        tracker.advanced().players == tracker.players,
        tracker.next_player() matches Some(next) ==> tracker.players.contains(next),
        tracker.next_player() is Some <==> tracker.players.len() > 0,
{
    if tracker.players.len() > 0 {
        let position = tracker.next_position() as int;
        assert(0 <= position < tracker.players.len());
        assert(tracker.players[position] == tracker.next_player().unwrap());
    }
}

/// Taking out a name that nobody goes by changes nothing.
pub proof fn lemma_remove_absent(tracker: TurnTrackerView, name: Seq<char>)
    requires
        !has_player(tracker.players, name),
    ensures
        tracker.removed(name) == tracker,
{
    lemma_without_absent(tracker.players, name);
    if tracker.current < tracker.players.len() {
        let head = tracker.players.take(tracker.current as int);
        assert(!has_player(head, name)) by {
            if has_player(head, name) {
                let j = choose|j: int| 0 <= j < head.len() && (#[trigger] head[j]).name == name;
                assert(tracker.players[j].name == name);
            }
        }
        lemma_without_absent(head, name);
        assert(tracker.players[tracker.current as int].name != name);
    }
}

/// Without a name that nobody goes by, the players are who they were.
proof fn lemma_without_absent(players: Seq<UserView>, name: Seq<char>)
    requires
        !has_player(players, name),
    ensures
        without_name(players, name) == players,
    decreases players.len(),
{
    let keep = |u: UserView| u.name != name;
    if players.len() == 0 {
        assert(players.filter(keep) =~= players) by {
            reveal(Seq::filter);
        }
    } else {
        let rest = players.drop_last();
        let last = players.last();
        assert(!has_player(rest, name)) by {
            if has_player(rest, name) {
                let j = choose|j: int| 0 <= j < rest.len() && (#[trigger] rest[j]).name == name;
                assert(players[j].name == name);
            }
        }
        lemma_without_absent(rest, name);
        assert(players[players.len() - 1].name != name);
        assert(players =~= rest.push(last));
        rest.lemma_filter_push(last, keep);
    }
}

/// The rotation of one game.
#[derive(Debug)]
pub struct TurnTracker {
    players: Vec<User>,
    current_player_index: usize,
}

impl View for TurnTracker {
    type V = TurnTrackerView;

    closed spec fn view(&self) -> TurnTrackerView {
        TurnTrackerView {
            players: user_views(self.players@),
            current: self.current_player_index as nat,
        }
    }
}

/// The position of the first player called `username`, found with
/// itertools' `find_position`: `None` where nobody goes by that name,
/// else the least index whose player does.
#[verifier::external_body]
fn find_position_by_name(players: &Vec<User>, username: &str) -> (found: Option<usize>)
    ensures
        match found {
            Some(i) => {
                &&& i < players.len()
                &&& players[i as int]@.name == username@
                &&& forall|j: int| 0 <= j < i ==> (#[trigger] players[j])@.name != username@
            },
            None => forall|j: int|
                0 <= j < players.len() ==> (#[trigger] players[j])@.name != username@,
        },
{
    players.iter().find_position(|u| has_name(u, username)).map(|(i, _)| i)
}

impl TurnTracker {
    /// A rotation of `players`, in that order, with the cursor on the
    /// first position: the first turn goes to whoever follows the first
    /// player, which is the second player where there is one.
    pub fn new(players: Vec<User>) -> (tracker: Self)
        ensures
            tracker@ == (TurnTrackerView { players: user_views(players@), current: 0 }),
    {
        Self { players, current_player_index: 0 }
    }

    /// Takes every player called `username` out of the rotation. The
    /// others keep their order, and the turn passes next to whoever
    /// followed the player on turn, as `TurnTrackerView::removed` says.
    /// Where nobody goes by that name nothing changes.
    pub fn remove_player(&mut self, username: &str)
        ensures
            final(self)@ == old(self)@.removed(username@),
            !has_player(old(self)@.players, username@) ==> final(self)@ == old(self)@,
    {
        let ghost before = self.players@;
        let ghost views = user_views(before);
        let ghost keep = |u: UserView| u.name != username@;
        if find_position_by_name(&self.players, username).is_none() {
            proof {
                assert(!has_player(views, username@)) by {
                    if has_player(views, username@) {
                        let j = choose|j: int|
                            0 <= j < views.len() && (#[trigger] views[j]).name == username@;
                        assert(before[j]@.name == username@);
                    }
                }
                lemma_remove_absent(self@, username@);
            }
            return ;
        }
        proof {
            if !has_player(views, username@) {
                lemma_remove_absent(self@, username@);
            }
        }
        let current = self.current_player_index;
        let len = self.players.len();
        let mut kept: Vec<User> = Vec::new();
        let mut stay_before: usize = 0;
        let mut at: usize = 0;
        proof {
            assert(user_views(kept@) =~= Seq::<UserView>::empty());
            lemma_staying_before_end(views, username@);
        }
        while at < len
            invariant
                at <= len,
                len == self.players.len(),
                self.players@ == before,
                views == user_views(before),
                keep == (|u: UserView| u.name != username@),
                user_views(kept@) == views.take(at as int).filter(keep),
                kept.len() <= at,
                stay_before == staying_before(
                    views,
                    username@,
                    if at <= current {
                        at as int
                    } else {
                        current as int
                    },
                ),
            decreases len - at,
        {
            proof {
                lemma_place_after_removal(views, username@, at as int);
                assert(views[at as int] == before[at as int]@);
            }
            if !has_name(&self.players[at], username) {
                let ghost shorter = kept@;
                kept.push(self.players[at].clone());
                proof {
                    assert(user_views(kept@) =~= user_views(shorter).push(views[at as int]));
                    assert(views.take(at + 1) =~= views.take(at as int).push(views[at as int]));
                    views.take(at as int).lemma_filter_push(views[at as int], keep);
                }
                if at < current {
                    stay_before += 1;
                }
            } else {
                proof {
                    assert(views.take(at + 1) =~= views.take(at as int).push(views[at as int]));
                    views.take(at as int).lemma_filter_push(views[at as int], keep);
                }
            }
            at += 1;
        }
        proof {
            assert(views.take(len as int) =~= views);
            if current < len {
                assert(views[current as int] == before[current as int]@);
            }
        }
        if current < len {
            self.current_player_index = if !has_name(&self.players[current], username) {
                stay_before
            } else if stay_before > 0 {
                stay_before - 1
            } else if kept.len() > 0 {
                kept.len() - 1
            } else {
                0
            };
        }
        self.players = kept;
    }

    /// Puts `user` at the end of the rotation.
    pub fn add_player(&mut self, user: User)
        ensures
            final(self)@ == old(self)@.added(user@),
    {
        let ghost before = self.players@;
        self.players.push(user);
        assert(user_views(self.players@) =~= user_views(before).push(user@));
    }

    /// Passes the turn on and says whose it is now: nobody where the
    /// rotation is empty, else the player after the cursor, going round.
    pub fn advance_player(&mut self) -> (next: Option<User>)
        ensures
            final(self)@ == old(self)@.advanced(),
            match next {
                Some(user) => old(self)@.next_player() == Some(user@),
                None => old(self)@.next_player().is_none(),
            },
    {
        if self.players.is_empty() {
            return None;
        }
        let len = self.players.len();
        assert((self.current_player_index % len + 1) % (len as int) == (self.current_player_index
            + 1) % (len as int)) by {
            vstd::arithmetic::div_mod::lemma_add_mod_noop(
                self.current_player_index as int,
                1,
                len as int,
            );
            vstd::arithmetic::div_mod::lemma_add_mod_noop(
                (self.current_player_index % len) as int,
                1,
                len as int,
            );
            vstd::arithmetic::div_mod::lemma_mod_twice(
                self.current_player_index as int,
                len as int,
            );
        }
        self.current_player_index = (self.current_player_index % len + 1) % len;
        Some(self.players[self.current_player_index].clone())
    }

    /// How many players are in the rotation.
    pub fn num_players(&self) -> (count: usize)
        ensures
            count == self@.players.len(),
    {
        self.players.len()
    }
}

} // verus!

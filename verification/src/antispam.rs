//! The anti-spam rule: a player who sends more messages within a window of
//! time than allowed is muted for a while.
//!
//! Time is a count of ticks of a clock that never runs backwards; the caller
//! chooses the unit and uses it for every argument.

use vstd::hash_map::StringHashMap;
use vstd::prelude::*;
use vstd::string::StringExecFns;

verus! {

/// What the rule remembers of each player.
pub struct AntiSpamState {
    history: StringHashMap<Vec<u64>>,
    muted_until: StringHashMap<u64>,
}

/// What an `AntiSpamState` holds, as mathematical values.
pub struct AntiSpamView {
    /// The times of each player's recent messages, the oldest first.
    pub history: Map<Seq<char>, Seq<u64>>,
    /// The time at which each muted player's mute ends.
    pub muted_until: Map<Seq<char>, u64>,
}

impl View for AntiSpamState {
    type V = AntiSpamView;

    closed spec fn view(&self) -> AntiSpamView {
        AntiSpamView {
            history: self.history@.map_values(|v: Vec<u64>| v@),
            muted_until: self.muted_until@,
        }
    }
}

/// Whether a message sent at `sent` is older than the window at time `now`.
/// A message from the future is of age zero.
pub open spec fn is_stale(sent: u64, now: u64, window: u64) -> bool {
    now >= sent && now - sent > window
}

/// The history without the stale messages at its front.
pub open spec fn without_stale(history: Seq<u64>, now: u64, window: u64) -> Seq<u64>
    decreases history.len(),
{
    if history.len() > 0 && is_stale(history[0], now, window) {
        without_stale(history.skip(1), now, window)
    } else {
        history
    }
}

/// Whether the player is muted at time `now`.
pub open spec fn is_muted(state: AntiSpamView, player: Seq<char>, now: u64) -> bool {
    state.muted_until.contains_key(player) && now < state.muted_until[player]
}

/// The player's recent messages at time `now`, the new one included.
pub open spec fn recent(state: AntiSpamView, player: Seq<char>, now: u64, window: u64) -> Seq<u64> {
    let before = if state.history.contains_key(player) {
        state.history[player]
    } else {
        Seq::empty()
    };
    without_stale(before, now, window).push(now)
}

/// Whether a message of the player at time `now` is blocked: it is while the
/// player is muted, and when it is one message too many within the window.
pub open spec fn blocks(
    state: AntiSpamView,
    player: Seq<char>,
    now: u64,
    window: u64,
    max_messages: usize,
) -> bool {
    is_muted(state, player, now) || recent(state, player, now, window).len() > max_messages
}

/// The state after a message of the player at time `now`. A muted player's
/// message changes nothing. Else a mute that has ended is forgotten, and
/// the message is counted; one message too many mutes the player and empties
/// the player's history.
pub open spec fn after_message(
    state: AntiSpamView,
    player: Seq<char>,
    now: u64,
    window: u64,
    max_messages: usize,
    mute: u64,
) -> AntiSpamView {
    if is_muted(state, player, now) {
        state
    } else if recent(state, player, now, window).len() > max_messages {
        AntiSpamView {
            history: state.history.insert(player, Seq::empty()),
            muted_until: state.muted_until.insert(player, (now + mute) as u64),
        }
    } else {
        AntiSpamView {
            history: state.history.insert(player, recent(state, player, now, window)),
            muted_until: state.muted_until.remove(player),
        }
    }
}

impl AntiSpamState {
    /// A state that remembers nothing.
    pub fn new() -> (s: AntiSpamState)
        ensures
            s@.history == Map::<Seq<char>, Seq<u64>>::empty(),
            s@.muted_until == Map::<Seq<char>, u64>::empty(),
    {
        let s = AntiSpamState { history: StringHashMap::new(), muted_until: StringHashMap::new() };
        assert(s@.history =~= Map::<Seq<char>, Seq<u64>>::empty());
        s
    }

    /// Counts a message of the player at time `now` and tells whether it is
    /// blocked.
    pub fn check_message(
        &mut self,
        player_id: &str,
        now: u64,
        window: u64,
        max_messages: usize,
        mute_duration: u64,
    ) -> (blocked: bool)
        requires
            now + mute_duration <= u64::MAX,
        ensures
            blocked == blocks(old(self)@, player_id@, now, window, max_messages),
            final(self)@ == after_message(
                old(self)@,
                player_id@,
                now,
                window,
                max_messages,
                mute_duration,
            ),
    {
        match self.muted_until.get(player_id) {
            Some(until) => {
                if now < *until {
                    return true;
                }
            },
            None => {},
        }
        self.muted_until.remove(player_id);
        let mut kept: Vec<u64> = Vec::new();
        let ghost before: Seq<u64> = if old(self)@.history.contains_key(player_id@) {
            old(self)@.history[player_id@]
        } else {
            Seq::empty()
        };
        match self.history.get(player_id) {
            Some(history) => {
                let mut first: usize = 0;
                assert(before.skip(0) =~= before);
                while first < history.len() && now >= history[first] && now - history[first]
                    > window
                    invariant
                        first <= history.len(),
                        history@ == before,
                        without_stale(before.skip(first as int), now, window) == without_stale(
                            before,
                            now,
                            window,
                        ),
                    decreases history.len() - first,
                {
                    assert(before.skip(first as int).skip(1) =~= before.skip(first + 1));
                    first += 1;
                }
                let mut i: usize = first;
                while i < history.len()
                    invariant
                        first <= i <= history.len(),
                        history@ == before,
                        kept@ == before.subrange(first as int, i as int),
                    decreases history.len() - i,
                {
                    kept.push(history[i]);
                    i += 1;
                }
                assert(kept@ =~= before.skip(first as int));
            },
            None => {},
        }
        assert(kept@ == without_stale(before, now, window));
        kept.push(now);
        assert(kept@ == recent(old(self)@, player_id@, now, window));
        if kept.len() > max_messages {
            self.muted_until.insert(String::from_str(player_id), now + mute_duration);
            self.history.insert(String::from_str(player_id), Vec::new());
            assert(self@.history =~= old(self)@.history.insert(player_id@, Seq::empty()));
            assert(self@.muted_until =~= old(self)@.muted_until.insert(
                player_id@,
                (now + mute_duration) as u64,
            ));
            return true;
        }
        self.history.insert(String::from_str(player_id), kept);
        assert(self@.history =~= old(self)@.history.insert(
            player_id@,
            recent(old(self)@, player_id@, now, window),
        ));
        false
    }
}

} // verus!

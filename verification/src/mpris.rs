//! Media players on the session bus: their playback states, which bus names
//! are players, which player the bar follows, and the text it shows.

use vstd::prelude::*;

use crate::text::{chars_eq, chars_eq_str, chars_of, find, find_from_exec};

verus! {

broadcast use vstd::string::group_string_axioms;

/// Whether a player plays.
#[derive(Clone, Copy, Debug, PartialEq, Eq, Structural)]
pub enum PlaybackStatus {
    Playing,
    Paused,
    Stopped,
}

/// Whether a player repeats.
#[derive(Clone, Copy, Debug, PartialEq, Eq, Structural)]
pub enum LoopStatus {
    /// No repetition (named `None` by players).
    NoLoop,
    Track,
    Playlist,
}

/// The name of the playback status `s`, as players write it.
pub open spec fn spec_playback_name(s: PlaybackStatus) -> Seq<char> {
    match s {
        PlaybackStatus::Playing => "Playing"@,
        PlaybackStatus::Paused => "Paused"@,
        PlaybackStatus::Stopped => "Stopped"@,
    }
}

/// The playback status named `name`, if any.
pub open spec fn spec_playback_from_name(name: Seq<char>) -> Option<PlaybackStatus> {
    if name == "Playing"@ {
        Some(PlaybackStatus::Playing)
    } else if name == "Paused"@ {
        Some(PlaybackStatus::Paused)
    } else if name == "Stopped"@ {
        Some(PlaybackStatus::Stopped)
    } else {
        None
    }
}

/// The name of the loop status `s`, as players write it.
pub open spec fn spec_loop_name(s: LoopStatus) -> Seq<char> {
    match s {
        LoopStatus::NoLoop => "None"@,
        LoopStatus::Track => "Track"@,
        LoopStatus::Playlist => "Playlist"@,
    }
}

/// The loop status named `name`, if any.
pub open spec fn spec_loop_from_name(name: Seq<char>) -> Option<LoopStatus> {
    if name == "None"@ {
        Some(LoopStatus::NoLoop)
    } else if name == "Track"@ {
        Some(LoopStatus::Track)
    } else if name == "Playlist"@ {
        Some(LoopStatus::Playlist)
    } else {
        None
    }
}

impl PlaybackStatus {
    /// The status named exactly `name`, if any.
    pub fn from_name(name: &str) -> (r: Option<PlaybackStatus>)
        ensures
            r == spec_playback_from_name(name@),
    {
        let chars = chars_of(name);
        if chars_eq_str(chars.as_slice(), "Playing") {
            Some(PlaybackStatus::Playing)
        } else if chars_eq_str(chars.as_slice(), "Paused") {
            Some(PlaybackStatus::Paused)
        } else if chars_eq_str(chars.as_slice(), "Stopped") {
            Some(PlaybackStatus::Stopped)
        } else {
            None
        }
    }

    /// The name of this status.
    pub fn name(&self) -> (r: &'static str)
        ensures
            r@ == spec_playback_name(*self),
    {
        match self {
            PlaybackStatus::Playing => "Playing",
            PlaybackStatus::Paused => "Paused",
            PlaybackStatus::Stopped => "Stopped",
        }
    }
}

impl LoopStatus {
    /// The status named exactly `name`, if any.
    pub fn from_name(name: &str) -> (r: Option<LoopStatus>)
        ensures
            r == spec_loop_from_name(name@),
    {
        let chars = chars_of(name);
        if chars_eq_str(chars.as_slice(), "None") {
            Some(LoopStatus::NoLoop)
        } else if chars_eq_str(chars.as_slice(), "Track") {
            Some(LoopStatus::Track)
        } else if chars_eq_str(chars.as_slice(), "Playlist") {
            Some(LoopStatus::Playlist)
        } else {
            None
        }
    }

    /// The name of this status.
    pub fn name(&self) -> (r: &'static str)
        ensures
            r@ == spec_loop_name(*self),
    {
        match self {
            LoopStatus::NoLoop => "None",
            LoopStatus::Track => "Track",
            LoopStatus::Playlist => "Playlist",
        }
    }
}

/// Reading the name of a playback status gives it back, and a name that
/// reads as a status is that status's name. The names are those of the
/// MPRIS specification: `Playing`, `Paused` and `Stopped`.
pub proof fn law_playback_names(s: PlaybackStatus, name: Seq<char>)
    ensures
        spec_playback_name(s) == match s {
            PlaybackStatus::Playing => "Playing"@,
            PlaybackStatus::Paused => "Paused"@,
            PlaybackStatus::Stopped => "Stopped"@,
        },
        spec_playback_from_name(spec_playback_name(s)) == Some(s),
        spec_playback_from_name(name) matches Some(t) ==> spec_playback_name(t) == name,
{
    reveal_strlit("Playing");
    reveal_strlit("Paused");
    reveal_strlit("Stopped");
    assert("Paused"@.len() == 6 && "Playing"@.len() == 7 && "Stopped"@.len() == 7);
    assert("Stopped"@[0] == 'S' && "Playing"@[0] == 'P');
}

/// Reading the name of a loop status gives it back, and a name that reads
/// as a status is that status's name. The names are those of the MPRIS
/// specification: `None`, `Track` and `Playlist`.
pub proof fn law_loop_names(s: LoopStatus, name: Seq<char>)
    ensures
        spec_loop_name(s) == match s {
            LoopStatus::NoLoop => "None"@,
            LoopStatus::Track => "Track"@,
            LoopStatus::Playlist => "Playlist"@,
        },
        spec_loop_from_name(spec_loop_name(s)) == Some(s),
        spec_loop_from_name(name) matches Some(t) ==> spec_loop_name(t) == name,
{
    reveal_strlit("None");
    reveal_strlit("Track");
    reveal_strlit("Playlist");
    assert("None"@.len() == 4 && "Track"@.len() == 5 && "Playlist"@.len() == 8);
}

/// The prefix of the bus names of media players.
pub open spec fn player_prefix() -> Seq<char> {
    "org.mpris.MediaPlayer2."@
}

/// Whether `s` starts with `prefix`.
pub open spec fn starts_with(s: Seq<char>, prefix: Seq<char>) -> bool {
    prefix.len() <= s.len() && s.take(prefix.len() as int) == prefix
}

fn starts_with_exec(s: &[char], prefix: &[char]) -> (r: bool)
    ensures
        r == starts_with(s@, prefix@),
{
    if prefix.len() > s.len() {
        return false;
    }
    let head = &s[0..prefix.len()];
    assert(head@ =~= s@.take(prefix@.len() as int));
    chars_eq(head, prefix)
}

/// Whether the bus name `name` is a media player the bar follows: under the
/// players' prefix, and not the `playerctld` proxy.
pub open spec fn spec_is_player_name(name: Seq<char>) -> bool {
    starts_with(name, player_prefix()) && find(name, "playerctld"@) is None
}

/// Whether the bus name `name` is a media player the bar follows.
pub fn is_player_name(name: &str) -> (r: bool)
    ensures
        r == spec_is_player_name(name@),
{
    let chars = chars_of(name);
    let prefix = chars_of("org.mpris.MediaPlayer2.");
    let proxy = chars_of("playerctld");
    starts_with_exec(chars.as_slice(), prefix.as_slice()) && find_from_exec(
        chars.as_slice(),
        proxy.as_slice(),
        0,
    ).is_none()
}

/// The application name in the bus name `destination`: what follows the
/// players' prefix, or the whole name.
pub open spec fn spec_app_name(destination: Seq<char>) -> Seq<char> {
    if starts_with(destination, player_prefix()) {
        destination.skip(player_prefix().len() as int)
    } else {
        destination
    }
}

/// The application name in the bus name `destination`.
pub fn app_name(destination: &str) -> (r: String)
    ensures
        r@ == spec_app_name(destination@),
{
    let chars = chars_of(destination);
    let prefix = chars_of("org.mpris.MediaPlayer2.");
    if starts_with_exec(chars.as_slice(), prefix.as_slice()) {
        let n = chars.len();
        let mut out = String::new();
        let mut i = prefix.len();
        while i < n
            invariant
                prefix@.len() <= i <= n,
                n == chars@.len(),
                out@ == chars@.subrange(prefix@.len() as int, i as int),
            decreases n - i,
        {
            crate::text::push_char(&mut out, chars[i]);
            assert(out@ =~= chars@.subrange(prefix@.len() as int, i + 1));
            i = i + 1;
        }
        assert(out@ =~= destination@.skip(player_prefix().len() as int));
        out
    } else {
        destination.to_owned()
    }
}

/// What a change of owner of a bus name means for the players.
#[derive(Clone, Copy, Debug, PartialEq, Eq, Structural)]
pub enum OwnerChange {
    /// A player appeared.
    Added,
    /// A player went away.
    Removed,
    /// Nothing for the bar.
    Ignored,
}

/// What the change of owner of the bus name `name` means: a player appears
/// when a name of a player gets an owner it had not, and goes away when it
/// loses its owner.
pub open spec fn spec_owner_change(name: Seq<char>, had_owner: bool, has_owner: bool) -> OwnerChange {
    if !spec_is_player_name(name) {
        OwnerChange::Ignored
    } else if has_owner && !had_owner {
        OwnerChange::Added
    } else if !has_owner && had_owner {
        OwnerChange::Removed
    } else {
        OwnerChange::Ignored
    }
}

/// What the change of owner of the bus name `name` means.
pub fn owner_change(name: &str, had_owner: bool, has_owner: bool) -> (r: OwnerChange)
    ensures
        r == spec_owner_change(name@, had_owner, has_owner),
{
    if !is_player_name(name) {
        OwnerChange::Ignored
    } else if has_owner && !had_owner {
        OwnerChange::Added
    } else if !has_owner && had_owner {
        OwnerChange::Removed
    } else {
        OwnerChange::Ignored
    }
}

/// What a player says it can do.
#[derive(Clone, Copy, Debug, PartialEq, Eq, Structural)]
pub struct Capabilities {
    pub can_control: bool,
    pub can_play: bool,
    pub can_pause: bool,
    pub can_go_previous: bool,
    pub can_go_next: bool,
}

impl Capabilities {
    /// Whether play and pause can be toggled.
    pub fn can_toggle(&self) -> (r: bool)
        ensures
            r == (self.can_control && self.can_play && self.can_pause),
    {
        self.can_control && self.can_play && self.can_pause
    }

    /// Whether the player can go to the previous track.
    pub fn can_previous(&self) -> (r: bool)
        ensures
            r == (self.can_control && self.can_go_previous),
    {
        self.can_control && self.can_go_previous
    }

    /// Whether the player can go to the next track.
    pub fn can_next(&self) -> (r: bool)
        ensures
            r == (self.can_control && self.can_go_next),
    {
        self.can_control && self.can_go_next
    }
}

/// Whether the list of artists names nobody: empty, or only empty names.
pub open spec fn no_artist(artists: Seq<Seq<char>>) -> bool {
    forall|i: int| 0 <= i < artists.len() ==> #[trigger] artists[i].len() == 0
}

/// The names of `artists` joined with `, `.
pub open spec fn join_artists(artists: Seq<Seq<char>>) -> Seq<char>
    decreases artists.len(),
{
    if artists.len() == 0 {
        seq![]
    } else if artists.len() == 1 {
        artists[0]
    } else {
        join_artists(artists.drop_last()) + ", "@ + artists.last()
    }
}

/// The text of the player: a pause sign while it plays, a play sign
/// otherwise; the title, or `Unknown`; and ` - ` and the artists when there
/// are some.
pub open spec fn spec_label_text(
    playing: bool,
    title: Option<Seq<char>>,
    artists: Seq<Seq<char>>,
) -> Seq<char> {
    let head = if playing {
        "󰏤  "@
    } else {
        "󰐊  "@
    };
    let name = match title {
        Some(t) => t,
        None => "Unknown"@,
    };
    if no_artist(artists) {
        head + name
    } else {
        head + name + " - "@ + join_artists(artists)
    }
}

/// The views of the strings of `v`.
pub open spec fn views(v: Seq<String>) -> Seq<Seq<char>> {
    Seq::new(v.len(), |i: int| v[i]@)
}

/// The text of the player.
pub fn label_text(status: PlaybackStatus, title: Option<&str>, artists: &Vec<String>) -> (r: String)
    ensures
        r@ == spec_label_text(status == PlaybackStatus::Playing, match title {
            Some(t) => Some(t@),
            None => None,
        }, views(artists@)),
{
    let mut text = if status == PlaybackStatus::Playing {
        "󰏤  ".to_owned()
    } else {
        "󰐊  ".to_owned()
    };
    match title {
        Some(t) => text.append(t),
        None => text.append("Unknown"),
    }
    let ghost head = text@;
    let mut all_empty = true;
    let mut i: usize = 0;
    while i < artists.len()
        invariant
            i <= artists@.len(),
            all_empty == no_artist(views(artists@).take(i as int)),
        decreases artists.len() - i,
    {
        if artists[i].unicode_len() != 0 {
            all_empty = false;
            assert(views(artists@).take(i + 1)[i as int] == artists@[i as int]@);
        } else {
            assert forall|j: int| 0 <= j < i + 1 && all_empty implies #[trigger] views(artists@).take(
                i + 1,
            )[j].len() == 0 by {
                if j < i {
                    assert(views(artists@).take(i as int)[j] == views(artists@).take(i + 1)[j]);
                }
            }
        }
        i = i + 1;
    }
    assert(views(artists@).take(artists@.len() as int) =~= views(artists@));
    if !all_empty {
        text.append(" - ");
        let mut k: usize = 0;
        let ghost before = text@;
        while k < artists.len()
            invariant
                k <= artists@.len(),
                text@ == before + join_artists(views(artists@).take(k as int)),
            decreases artists.len() - k,
        {
            if k > 0 {
                text.append(", ");
            }
            text.append(artists[k].as_str());
            proof {
                reveal_strlit(", ");
                let t = views(artists@).take(k + 1);
                assert(t.drop_last() =~= views(artists@).take(k as int));
                assert(t.last() == artists@[k as int]@);
            }
            k = k + 1;
        }
    }
    proof {
        reveal_strlit(" - ");
        reveal_strlit("Unknown");
    }
    assert(text@ =~= spec_label_text(status == PlaybackStatus::Playing, match title {
        Some(t) => Some(t@),
        None => None,
    }, views(artists@)));
    text
}

/// What asking a player for its playback status gave.
#[derive(Clone, Debug, PartialEq, Eq)]
pub enum Probe<E> {
    /// The player answered.
    Status(PlaybackStatus),
    /// The player's service is gone.
    Gone,
    /// Another error.
    Failed(E),
}

/// The first index from `i` on where the answers `probes` stop the search
/// for a player to follow: a playing player, or an error.
pub open spec fn search_from<E>(probes: Seq<Probe<E>>, i: int) -> Option<int>
    decreases probes.len() - i,
{
    if i < 0 || i >= probes.len() {
        None
    } else {
        match probes[i] {
            Probe::Status(PlaybackStatus::Playing) => Some(i),
            Probe::Failed(_) => Some(i),
            _ => search_from(probes, i + 1),
        }
    }
}

/// The entries of `entries` from `i` on whose service is not gone.
pub open spec fn alive_from<P, E>(entries: Seq<(Seq<char>, P)>, probes: Seq<Probe<E>>, i: int) -> Seq<
    (Seq<char>, P),
>
    decreases entries.len() - i,
{
    if i < 0 || i >= entries.len() {
        seq![]
    } else if i < probes.len() && probes[i] is Gone {
        alive_from(entries, probes, i + 1)
    } else {
        seq![entries[i]] + alive_from(entries, probes, i + 1)
    }
}

/// The first index from `i` on where `entries` holds the name `name`.
pub open spec fn name_index_from<P>(entries: Seq<(Seq<char>, P)>, name: Seq<char>, i: int) -> Option<int>
    decreases entries.len() - i,
{
    if i < 0 || i >= entries.len() {
        None
    } else if entries[i].0 == name {
        Some(i)
    } else {
        name_index_from(entries, name, i + 1)
    }
}

proof fn lemma_name_index_from<P>(entries: Seq<(Seq<char>, P)>, name: Seq<char>, i: int)
    requires
        0 <= i,
    ensures
        name_index_from(entries, name, i) matches Some(k) ==> i <= k < entries.len() && entries[k].0
            == name,
    decreases entries.len() - i,
{
    if i < entries.len() && entries[i].0 != name {
        lemma_name_index_from(entries, name, i + 1);
    }
}

/// The names and players of `v`.
pub open spec fn entries_view<P>(v: Seq<(String, P)>) -> Seq<(Seq<char>, P)> {
    Seq::new(v.len(), |i: int| (v[i].0@, v[i].1))
}

/// The players known to the bar, by application name, in the order they
/// came.
#[derive(Debug)]
pub struct PlayerList<P> {
    entries: Vec<(String, P)>,
}

/// The outcome of the search for a player to follow.
#[derive(Clone, Debug, PartialEq, Eq)]
pub enum Choice<E> {
    /// Follow the player at this index.
    Player(usize),
    /// No player is left.
    NoPlayer,
    /// Asking a player failed with this error.
    Failed(E),
}

impl<P> PlayerList<P> {
    /// The players, with their names, in order.
    pub closed spec fn entries(&self) -> Seq<(Seq<char>, P)> {
        entries_view(self.entries@)
    }

    /// The index of the player named `name`, in specifications.
    pub open spec fn index_of(&self, name: Seq<char>) -> Option<int> {
        name_index_from(self.entries(), name, 0)
    }

    /// No player.
    pub fn new() -> (r: Self)
        ensures
            r.entries() == Seq::<(Seq<char>, P)>::empty(),
    {
        let r = PlayerList { entries: Vec::new() };
        assert(r.entries() =~= Seq::<(Seq<char>, P)>::empty());
        r
    }

    /// The number of players.
    pub fn len(&self) -> (r: usize)
        ensures
            r == self.entries().len(),
    {
        self.entries.len()
    }

    /// The player at `index`.
    pub fn get(&self, index: usize) -> (r: &P)
        requires
            index < self.entries().len(),
        ensures
            *r == self.entries()[index as int].1,
    {
        &self.entries[index].1
    }

    /// The index of the player named `name`, if there is one.
    pub fn position(&self, name: &str) -> (r: Option<usize>)
        ensures
            r == match self.index_of(name@) {
                Some(i) => Some(i as usize),
                None => None::<usize>,
            },
            r matches Some(i) ==> i < self.entries().len(),
    {
        let chars = chars_of(name);
        let mut i: usize = 0;
        while i < self.entries.len()
            invariant
                i <= self.entries@.len(),
                self.entries().len() == self.entries@.len(),
                chars@ == name@,
                self.index_of(name@) == name_index_from(self.entries(), name@, i as int),
            decreases self.entries.len() - i,
        {
            let entry_chars = chars_of(self.entries[i].0.as_str());
            assert(self.entries()[i as int].0 == self.entries@[i as int].0@);
            if chars_eq(entry_chars.as_slice(), chars.as_slice()) {
                return Some(i);
            }
            i = i + 1;
        }
        None
    }

    /// Adds `player` under `name`; a player already under that name is
    /// replaced, in its place.
    pub fn insert(&mut self, name: String, player: P)
        ensures
            final(self).entries() == match old(self).index_of(name@) {
                Some(i) => old(self).entries().update(i, (name@, player)),
                None => old(self).entries().push((name@, player)),
            },
    {
        let len = self.entries.len();
        proof {
            lemma_name_index_from(self.entries(), name@, 0);
            assert(len == old(self).entries().len());
        }
        match self.position(name.as_str()) {
            Some(i) => {
                let ghost nv = name@;
                self.entries.set(i, (name, player));
                assert(self.entries() =~= old(self).entries().update(i as int, (nv, player)));
            },
            None => {
                let ghost nv = name@;
                self.entries.push((name, player));
                assert(self.entries() =~= old(self).entries().push((nv, player)));
            },
        }
    }

    /// Removes the player named `name`, if there is one, and hands it back.
    pub fn remove(&mut self, name: &str) -> (r: Option<P>)
        ensures
            match old(self).index_of(name@) {
                Some(i) => final(self).entries() == old(self).entries().remove(i) && r == Some(
                    old(self).entries()[i].1,
                ),
                None => final(self).entries() == old(self).entries() && r is None,
            },
    {
        let len = self.entries.len();
        proof {
            lemma_name_index_from(self.entries(), name@, 0);
            assert(len == old(self).entries().len());
        }
        match self.position(name) {
            Some(i) => {
                let (_, p) = self.entries.remove(i);
                assert(self.entries() =~= old(self).entries().remove(i as int));
                Some(p)
            },
            None => None,
        }
    }

    /// Chooses the player to follow from the answers `probes` of the players
    /// in order (given up to the first that plays or fails): the first that
    /// plays; an error as soon as one fails; otherwise the players whose
    /// service is gone are dropped and the first that remains is chosen.
    pub fn choose_player<E>(&mut self, answers: Vec<Probe<E>>) -> (r: Choice<E>)
        requires
            answers@.len() <= old(self).entries().len(),
        ensures
            match search_from(answers@, 0) {
                Some(i) => final(self).entries() == old(self).entries() && match answers@[i] {
                    Probe::Failed(e) => r == Choice::Failed(e),
                    _ => r == Choice::<E>::Player(i as usize),
                },
                None => final(self).entries() == alive_from(old(self).entries(), answers@, 0) && r
                    == if final(self).entries().len() == 0 {
                    Choice::<E>::NoPlayer
                } else {
                    Choice::<E>::Player(0)
                },
            },
    {
        let mut probes = answers;
        let mut i: usize = 0;
        while i < probes.len()
            invariant
                i <= probes@.len(),
                probes@ == answers@,
                search_from(probes@, 0) == search_from(probes@, i as int),
            decreases probes.len() - i,
        {
            let stop = match &probes[i] {
                Probe::Status(PlaybackStatus::Playing) => true,
                Probe::Failed(_) => true,
                _ => false,
            };
            if stop {
                return match probes.remove(i) {
                    Probe::Failed(e) => Choice::Failed(e),
                    _ => Choice::Player(i),
                };
            }
            i = i + 1;
        }
        let mut kept: Vec<(String, P)> = Vec::new();
        let mut old_entries: Vec<(String, P)> = Vec::new();
        std::mem::swap(&mut old_entries, &mut self.entries);
        let ghost all = entries_view(old_entries@);
        let ghost n = old_entries@.len();
        assert(all == old(self).entries());
        let count = old_entries.len();
        let mut j: usize = 0;
        while old_entries.len() > 0
            invariant
                j + old_entries@.len() == n,
                n == all.len(),
                n == count,
                probes@.len() <= n,
                entries_view(old_entries@) == all.skip(j as int),
                entries_view(kept@) + alive_from(all, probes@, j as int) == alive_from(all, probes@, 0),
            decreases old_entries.len(),
        {
            let ghost prev = old_entries@;
            let entry = old_entries.remove(0);
            assert(entries_view(prev)[0] == all.skip(j as int)[0]);
            assert(all[j as int] == (entry.0@, entry.1));
            let gone = j < probes.len() && match &probes[j] {
                Probe::Gone => true,
                _ => false,
            };
            if gone {
                assert(entries_view(kept@) + alive_from(all, probes@, j + 1) =~= alive_from(all, probes@, 0));
            } else {
                kept.push(entry);
                assert(entries_view(kept@) =~= entries_view(kept@).drop_last().push(all[j as int]));
                assert(entries_view(kept@) + alive_from(all, probes@, j + 1) =~= alive_from(all, probes@, 0));
            }
            assert(entries_view(old_entries@) =~= entries_view(prev).skip(1));
            assert(entries_view(old_entries@) =~= all.skip(j + 1));
            j = j + 1;
        }
        assert(entries_view(kept@) =~= alive_from(all, probes@, 0));
        self.entries = kept;
        if self.entries.len() == 0 {
            Choice::NoPlayer
        } else {
            Choice::Player(0)
        }
    }
}


proof fn lemma_name_index_push<P>(entries: Seq<(Seq<char>, P)>, name: Seq<char>, player: P, i: int)
    requires
        0 <= i <= entries.len(),
        name_index_from(entries, name, i) is None,
    ensures
        name_index_from(entries.push((name, player)), name, i) == Some(entries.len() as int),
    decreases entries.len() - i,
{
    let pushed = entries.push((name, player));
    assert(pushed[entries.len() as int] == (name, player));
    if i < entries.len() {
        assert(pushed[i] == entries[i]);
        lemma_name_index_push(entries, name, player, i + 1);
    }
}

/// Law: a player added under a name that no player has, and then removed by
/// that name, is handed back, and the list is as it was.
/// [`PlayerList::insert`] then pushes it, and [`PlayerList::remove`] finds it
/// last.
pub proof fn law_insert_then_remove<P>(entries: Seq<(Seq<char>, P)>, name: Seq<char>, player: P)
    requires
        name_index_from(entries, name, 0) is None,
    ensures
        name_index_from(entries.push((name, player)), name, 0) == Some(entries.len() as int),
        entries.push((name, player))[entries.len() as int].1 == player,
        entries.push((name, player)).remove(entries.len() as int) == entries,
{
    lemma_name_index_push(entries, name, player, 0);
    assert(entries.push((name, player)).remove(entries.len() as int) =~= entries);
}

} // verus!

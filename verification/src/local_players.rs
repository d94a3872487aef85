//! The local players of an active game (the main player and dummies), and
//! what the client's ui and console ask of them: adding and removing local
//! players, choosing the active one, and requests to the server for it.

use vstd::prelude::*;

use crate::game_flow::GAME_ERROR_NOTIFY_SECS;
use crate::text::{chars_of, push_char, push_chars, seq_starts_with, starts_with};

verus! {

/// A local player the client expects on the server: its local id, whether
/// it is a dummy, and its player id once the server accepted it.
#[derive(Debug, Clone, Copy, PartialEq, Eq, Structural)]
pub struct LocalPlayerEntry {
    pub id: u64,
    pub is_dummy: bool,
    pub player_id: Option<u64>,
}

/// The local players of an active game, in the order they were added.
#[derive(Debug)]
pub struct LocalPlayers {
    pub entries: Vec<LocalPlayerEntry>,
    /// the local id of the player that the input controls
    pub active_id: u64,
    /// the local id the next local player gets
    pub id_counter: u64,
    /// how many local players the client runs
    pub local_player_count: u64,
}

/// The view of [`LocalPlayers`].
pub struct LocalPlayersView {
    pub entries: Seq<LocalPlayerEntry>,
    pub active_id: u64,
    pub id_counter: u64,
    pub local_player_count: u64,
}

impl View for LocalPlayers {
    type V = LocalPlayersView;

    open spec fn view(&self) -> LocalPlayersView {
        LocalPlayersView {
            entries: self.entries@,
            active_id: self.active_id,
            id_counter: self.id_counter,
            local_player_count: self.local_player_count,
        }
    }
}

/// What the ui asks of an active game's local players.
#[derive(Debug, Clone, Copy, PartialEq, Eq, Structural)]
pub enum UiEventKind {
    ConnectLocalPlayer { as_dummy: bool },
    DisconnectLocalPlayer,
    Kill,
    JoinSpectators,
    JoinGame,
    SwitchToFreeCam,
    /// start a vote (the ui keeps what the vote is about)
    StartVote { kind: VoteKind },
}

/// What a vote is about.
#[derive(Debug, Clone, Copy, PartialEq, Eq, Structural)]
pub enum VoteKind {
    KickPlayer,
    SpecPlayer,
    /// a map change
    ChangeMap,
    RandomUnfinishedMap,
    Misc,
}
#[derive(Debug, Clone, Copy, PartialEq, Eq, Structural)]
pub enum PlayerMsgKind {
    Kill,
    JoinSpectator,
    /// join the default stage
    JoinStage,
    SwitchToFreeCam,
    RemLocalPlayer,
    StartVote { kind: VoteKind },
}

/// What the client sends to the server.
#[derive(Debug, Clone, Copy, PartialEq, Eq, Structural)]
pub enum ClientRequest {
    AddLocalPlayer { id: u64, as_dummy: bool },
    PlayerMsg { player_id: u64, msg: PlayerMsgKind },
}

/// The index of the first entry with local id `id`.
pub open spec fn index_of_id(entries: Seq<LocalPlayerEntry>, id: u64) -> Option<int>
    decreases entries.len(),
{
    if entries.len() == 0 {
        None
    } else if entries[0].id == id {
        Some(0)
    } else {
        match index_of_id(entries.drop_first(), id) {
            Some(i) => Some(i + 1),
            None => None,
        }
    }
}

/// The player id of the active local player, once the server accepted it.
pub open spec fn active_player_id(s: LocalPlayersView) -> Option<u64> {
    match index_of_id(s.entries, s.active_id) {
        Some(i) => s.entries[i].player_id,
        None => None,
    }
}

/// The entries after adding `e`: an entry with the same local id is
/// replaced where it stands, otherwise `e` goes last.
pub open spec fn insert_entry(entries: Seq<LocalPlayerEntry>, e: LocalPlayerEntry) -> Seq<LocalPlayerEntry> {
    match index_of_id(entries, e.id) {
        Some(i) => entries.update(i, e),
        None => entries.push(e),
    }
}

/// What a ui event does: the local players afterwards and the request to
/// the server, if any.
pub open spec fn spec_ui_event_step(s: LocalPlayersView, ev: UiEventKind) -> (LocalPlayersView, Option<ClientRequest>) {
    match ev {
        UiEventKind::ConnectLocalPlayer { as_dummy } => (
            LocalPlayersView {
                entries: insert_entry(
                    s.entries,
                    LocalPlayerEntry { id: s.id_counter, is_dummy: as_dummy, player_id: None },
                ),
                active_id: s.active_id,
                id_counter: (s.id_counter + 1) as u64,
                local_player_count: (s.local_player_count + 1) as u64,
            },
            Some(ClientRequest::AddLocalPlayer { id: s.id_counter, as_dummy }),
        ),
        UiEventKind::DisconnectLocalPlayer => {
            let count = if s.local_player_count > 0 {
                (s.local_player_count - 1) as u64
            } else {
                0
            };
            if s.entries.len() > 1 {
                let last = s.entries.last();
                let rest = s.entries.drop_last();
                (
                    LocalPlayersView {
                        entries: rest,
                        active_id: if s.active_id == last.id {
                            rest[0].id
                        } else {
                            s.active_id
                        },
                        id_counter: s.id_counter,
                        local_player_count: count,
                    },
                    match last.player_id {
                        Some(p) => Some(
                            ClientRequest::PlayerMsg { player_id: p, msg: PlayerMsgKind::RemLocalPlayer },
                        ),
                        None => None,
                    },
                )
            } else {
                (LocalPlayersView { local_player_count: count, ..s }, None)
            }
        },
        _ => (
            s,
            match active_player_id(s) {
                Some(p) => Some(
                    ClientRequest::PlayerMsg {
                        player_id: p,
                        msg: match ev {
                            UiEventKind::Kill => PlayerMsgKind::Kill,
                            UiEventKind::JoinSpectators => PlayerMsgKind::JoinSpectator,
                            UiEventKind::JoinGame => PlayerMsgKind::JoinStage,
                            UiEventKind::StartVote { kind } => PlayerMsgKind::StartVote { kind },
                            _ => PlayerMsgKind::SwitchToFreeCam,
                        },
                    },
                ),
                None => None,
            },
        ),
    }
}

/// Disconnecting a local player removes the one added last, unless it is
/// the only one left; the input keeps controlling the active player unless
/// that very player was removed, in which case control goes to the first
/// local player. The server is asked to remove the player once it had
/// accepted it, and nothing else changes but the count of local players,
/// which goes down by one (not below zero).
pub proof fn lemma_disconnect_local_player(s: LocalPlayersView)
    ensures
        ({
            let (r, req) = spec_ui_event_step(s, UiEventKind::DisconnectLocalPlayer);
            &&& r.local_player_count == (if s.local_player_count == 0 {
                0
            } else {
                s.local_player_count - 1
            })
            &&& r.id_counter == s.id_counter
            &&& s.entries.len() <= 1 ==> r.entries == s.entries && r.active_id == s.active_id
                && req is None
            &&& s.entries.len() > 1 ==> {
                &&& r.entries.len() == s.entries.len() - 1
                &&& forall|i: int| 0 <= i < r.entries.len() ==> r.entries[i] == s.entries[i]
                &&& s.active_id != s.entries[s.entries.len() - 1].id ==> r.active_id == s.active_id
                &&& s.active_id == s.entries[s.entries.len() - 1].id ==> r.active_id
                    == s.entries[0].id
                &&& req == match s.entries[s.entries.len() - 1].player_id {
                    Some(p) => Some(
                        ClientRequest::PlayerMsg { player_id: p, msg: PlayerMsgKind::RemLocalPlayer },
                    ),
                    None => None::<ClientRequest>,
                }
            }
        }),
{
}

/// Connecting a local player expects one more player under the next free
/// local id (last, as not yet accepted) and asks the server to add it; the
/// active player stays. Any other ui event leaves the local players alone
/// and, once the server accepted the active player, sends the request for
/// that player.
pub proof fn lemma_connect_and_requests(s: LocalPlayersView, ev: UiEventKind)
    requires
        ev is ConnectLocalPlayer ==> forall|i: int| 0 <= i < s.entries.len() ==> s.entries[i].id != s.id_counter,
        ev is ConnectLocalPlayer ==> s.id_counter < u64::MAX && s.local_player_count < u64::MAX,
    ensures
        ({
            let (r, req) = spec_ui_event_step(s, ev);
            &&& ev matches UiEventKind::ConnectLocalPlayer { as_dummy } ==> {
                &&& r.entries == s.entries.push(LocalPlayerEntry { id: s.id_counter, is_dummy: as_dummy, player_id: None })
                &&& r.active_id == s.active_id
                &&& r.id_counter == s.id_counter + 1
                &&& r.local_player_count == s.local_player_count + 1
                &&& req == Some(ClientRequest::AddLocalPlayer { id: s.id_counter, as_dummy })
            }
            &&& !(ev is ConnectLocalPlayer) && !(ev is DisconnectLocalPlayer) ==> {
                &&& r == s
                &&& req is Some <==> exists|i: int| 0 <= i < s.entries.len() && s.entries[i].id == s.active_id
                    && #[trigger] s.entries[i].player_id is Some && forall|j: int| 0 <= j < i ==> s.entries[j].id != s.active_id
                &&& req matches Some(ClientRequest::PlayerMsg { player_id, .. }) ==> exists|i: int| 0 <= i < s.entries.len()
                    && s.entries[i].id == s.active_id && #[trigger] s.entries[i].player_id == Some(player_id)
            }
        }),
{
    lemma_index_in_range(s.entries, s.active_id);
    lemma_index_first(s.entries, s.active_id);
    if ev is ConnectLocalPlayer {
        lemma_index_absent(s.entries, s.id_counter);
    } else if !(ev is DisconnectLocalPlayer) {
        let (r, req) = spec_ui_event_step(s, ev);
        assert(r == s);
        match index_of_id(s.entries, s.active_id) {
            Some(k) => {
                assert(active_player_id(s) == s.entries[k].player_id);
                if s.entries[k].player_id is Some {
                    assert(req is Some);
                    assert(s.entries[k].id == s.active_id);
                    assert(0 <= k < s.entries.len() && s.entries[k].id == s.active_id
                        && s.entries[k].player_id is Some && forall|j: int| 0 <= j < k ==> s.entries[j].id != s.active_id);
                } else {
                    assert(req is None);
                    assert forall|i: int| 0 <= i < s.entries.len() && s.entries[i].id == s.active_id
                        && (forall|j: int| 0 <= j < i ==> s.entries[j].id != s.active_id) implies
                        !(#[trigger] s.entries[i].player_id is Some) by {
                        if i < k {
                        } else if i > k {
                            assert(s.entries[k].id == s.active_id);
                        }
                    }
                }
            },
            None => {
                assert(req is None);
            },
        }
    }
}

proof fn lemma_index_absent(entries: Seq<LocalPlayerEntry>, id: u64)
    requires
        forall|i: int| 0 <= i < entries.len() ==> entries[i].id != id,
    ensures
        index_of_id(entries, id) is None,
    decreases entries.len(),
{
    if entries.len() > 0 {
        assert forall|i: int| 0 <= i < entries.drop_first().len() implies entries.drop_first()[i].id != id by {
            assert(entries.drop_first()[i] == entries[i + 1]);
        }
        lemma_index_absent(entries.drop_first(), id);
    }
}

proof fn lemma_index_first(entries: Seq<LocalPlayerEntry>, id: u64)
    ensures
        index_of_id(entries, id) matches Some(k) ==> forall|j: int| 0 <= j < k ==> entries[j].id != id,
        index_of_id(entries, id) is None ==> forall|j: int| 0 <= j < entries.len() ==> entries[j].id != id,
    decreases entries.len(),
{
    if entries.len() > 0 {
        let t = entries.drop_first();
        lemma_index_first(t, id);
        lemma_index_in_range(entries, id);
        if let Some(k) = index_of_id(entries, id) {
            assert forall|j: int| 0 <= j < k implies entries[j].id != id by {
                if j > 0 {
                    assert(entries[j] == t[j - 1]);
                }
            }
        }
        if index_of_id(entries, id) is None {
            assert forall|j: int| 0 <= j < entries.len() implies entries[j].id != id by {
                if j > 0 {
                    assert(entries[j] == t[j - 1]);
                }
            }
        }
    }
}

fn find_id(entries: &Vec<LocalPlayerEntry>, id: u64) -> (r: Option<usize>)
    ensures
        match r {
            Some(k) => index_of_id(entries@, id) == Some(k as int),
            None => index_of_id(entries@, id) is None,
        },
{
    let mut i: usize = 0;
    assert(entries@.skip(0) =~= entries@);
    while i < entries.len()
        invariant
            i <= entries@.len(),
            index_of_id(entries@, id) == match index_of_id(entries@.skip(i as int), id) {
                Some(j) => Some(j + i),
                None => None::<int>,
            },
        decreases entries.len() - i,
    {
        proof {
            let t = entries@.skip(i as int);
            assert(t.drop_first() =~= entries@.skip(i + 1));
            assert(t[0] == entries@[i as int]);
        }
        if entries[i].id == id {
            return Some(i);
        }
        i = i + 1;
    }
    proof {
        assert(entries@.skip(i as int) =~= Seq::<LocalPlayerEntry>::empty());
    }
    None
}

proof fn lemma_index_in_range(entries: Seq<LocalPlayerEntry>, id: u64)
    ensures
        index_of_id(entries, id) matches Some(i) ==> 0 <= i < entries.len() && entries[i].id == id,
    decreases entries.len(),
{
    if entries.len() > 0 && entries[0].id != id {
        lemma_index_in_range(entries.drop_first(), id);
    }
}

fn active_player(s: &LocalPlayers) -> (r: Option<u64>)
    ensures
        r == active_player_id(s@),
{
    proof {
        lemma_index_in_range(s.entries@, s.active_id);
    }
    let found = find_id(&s.entries, s.active_id);
    assert(s@.entries == s.entries@);
    match found {
        Some(i) => {
            assert(index_of_id(s@.entries, s@.active_id) == Some(i as int));
            s.entries[i].player_id
        },
        None => None,
    }
}

/// A ui event for an active game's local players (the ui sends them only
/// while a game is active).
pub fn local_players_on_ui_event(s: LocalPlayers, ev: UiEventKind) -> (r: (LocalPlayers, Option<ClientRequest>))
    requires
        ev is ConnectLocalPlayer ==> s.id_counter < u64::MAX && s.local_player_count < u64::MAX,
    ensures
        (r.0@, r.1) == spec_ui_event_step(s@, ev),
{
    let mut s = s;
    match ev {
        UiEventKind::ConnectLocalPlayer { as_dummy } => {
            let id = s.id_counter;
            let e = LocalPlayerEntry { id, is_dummy: as_dummy, player_id: None };
            proof {
                lemma_index_in_range(s.entries@, id);
            }
            let ghost before = s.entries@;
            match find_id(&s.entries, id) {
                Some(i) => {
                    s.entries.set(i, e);
                    assert(s.entries@ == insert_entry(before, e));
                },
                None => {
                    s.entries.push(e);
                    assert(s.entries@ == insert_entry(before, e));
                },
            }
            s.id_counter = s.id_counter + 1;
            s.local_player_count = s.local_player_count + 1;
            (s, Some(ClientRequest::AddLocalPlayer { id, as_dummy }))
        },
        UiEventKind::DisconnectLocalPlayer => {
            s.local_player_count = s.local_player_count.saturating_sub(1);
            if s.entries.len() > 1 {
                let last = s.entries.pop().unwrap();
                if s.active_id == last.id {
                    s.active_id = s.entries[0].id;
                }
                let req = match last.player_id {
                    Some(p) => Some(
                        ClientRequest::PlayerMsg { player_id: p, msg: PlayerMsgKind::RemLocalPlayer },
                    ),
                    None => None,
                };
                (s, req)
            } else {
                (s, None)
            }
        },
        _ => {
            let msg = match ev {
                UiEventKind::Kill => PlayerMsgKind::Kill,
                UiEventKind::JoinSpectators => PlayerMsgKind::JoinSpectator,
                UiEventKind::JoinGame => PlayerMsgKind::JoinStage,
                UiEventKind::StartVote { kind } => PlayerMsgKind::StartVote { kind },
                _ => PlayerMsgKind::SwitchToFreeCam,
            };
            let req = match active_player(&s) {
                Some(p) => Some(ClientRequest::PlayerMsg { player_id: p, msg }),
                None => None,
            };
            (s, req)
        },
    }
}

/// The kind of an address the console asks to connect to.
#[derive(Debug, Clone, Copy, PartialEq, Eq, Structural)]
pub struct AddressKind {
    pub is_ipv4: bool,
    pub is_loopback: bool,
}

/// What the local console asks of the client.
#[derive(Debug)]
pub enum ConsoleEventKind {
    /// connect to one of `addresses`, none of which is a local server
    ConnectFallback { addresses: Vec<AddressKind> },
    /// make a dummy (by its place among the dummies) or, without one, the
    /// main player active
    ChangeDummy { dummy_index: Option<u64> },
    /// the binds of the active player (`was_player_profile`) or of the
    /// first inactive one changed
    Rebind { was_player_profile: bool },
    /// a config variable changed
    ConfigVariable { name: String },
    Quit,
}

/// What the client does for a console event.
#[derive(Debug, Clone, Copy, PartialEq, Eq, Structural)]
pub enum ConsoleAction {
    Nothing,
    /// connect to the address at `index`, with an unknown certificate
    ConnectTo { index: u64 },
    /// make local player `id` the active one
    SetActive { id: u64 },
    /// build the binds again of the active player (`player_profile`) or of
    /// the first inactive one
    Rebind { player_profile: bool },
    /// what a changed config variable touches
    ConfigChanged {
        player_info: bool,
        window: bool,
        input: bool,
        vsync: bool,
        clear_color: bool,
        msaa: bool,
    },
    Quit,
}

/// The local id of the `n`-th dummy (counting from zero), in order.
pub open spec fn nth_dummy(entries: Seq<LocalPlayerEntry>, n: int) -> Option<u64>
    decreases entries.len(),
{
    if entries.len() == 0 {
        None
    } else if entries[0].is_dummy {
        if n == 0 {
            Some(entries[0].id)
        } else {
            nth_dummy(entries.drop_first(), n - 1)
        }
    } else {
        nth_dummy(entries.drop_first(), n)
    }
}

/// The local id of the first player that is no dummy.
pub open spec fn first_main(entries: Seq<LocalPlayerEntry>) -> Option<u64>
    decreases entries.len(),
{
    if entries.len() == 0 {
        None
    } else if !entries[0].is_dummy {
        Some(entries[0].id)
    } else {
        first_main(entries.drop_first())
    }
}

/// The index of the first IPv4 address.
pub open spec fn first_ipv4(addrs: Seq<AddressKind>) -> Option<int>
    decreases addrs.len(),
{
    if addrs.len() == 0 {
        None
    } else if addrs[0].is_ipv4 {
        Some(0)
    } else {
        match first_ipv4(addrs.drop_first()) {
            Some(i) => Some(i + 1),
            None => None,
        }
    }
}

/// The address connected to: the first IPv4 address, otherwise the first
/// one; none if that is a loopback address (a local server is reached
/// another way).
pub open spec fn choose_address(addrs: Seq<AddressKind>) -> Option<int> {
    let c = match first_ipv4(addrs) {
        Some(i) => Some(i),
        None => if addrs.len() > 0 {
            Some(0int)
        } else {
            None
        },
    };
    match c {
        Some(i) => if addrs[i].is_loopback {
            None
        } else {
            Some(i)
        },
        None => None,
    }
}

/// Whether `name` is `group` or lies under `group.`.
pub open spec fn in_group(name: Seq<char>, group: Seq<char>) -> bool {
    name == group || seq_starts_with(name, group + seq!['.'])
}

pub open spec fn spec_console_step(s: LocalPlayersView, ev: ConsoleEventKind) -> ConsoleAction {
    match ev {
        ConsoleEventKind::ConnectFallback { addresses } => match choose_address(addresses@) {
            Some(i) => ConsoleAction::ConnectTo { index: i as u64 },
            None => ConsoleAction::Nothing,
        },
        ConsoleEventKind::ChangeDummy { dummy_index } => match (match dummy_index {
            Some(n) => nth_dummy(s.entries, n as int),
            None => first_main(s.entries),
        }) {
            Some(id) => ConsoleAction::SetActive { id },
            None => ConsoleAction::Nothing,
        },
        ConsoleEventKind::Rebind { was_player_profile } => ConsoleAction::Rebind {
            player_profile: was_player_profile,
        },
        ConsoleEventKind::ConfigVariable { name } => ConsoleAction::ConfigChanged {
            player_info: in_group(name@, "player"@),
            window: in_group(name@, "wnd"@),
            input: in_group(name@, "inp"@),
            vsync: name@ == "gl.vsync"@,
            clear_color: name@ == "gl.clear_color"@,
            msaa: name@ == "gl.msaa"@,
        },
        ConsoleEventKind::Quit => ConsoleAction::Quit,
    }
}

fn text_eq(a: &str, b: &str) -> (r: bool)
    ensures
        r == (a@ == b@),
{
    let x = chars_of(a);
    let y = chars_of(b);
    if x.len() != y.len() {
        return false;
    }
    let mut i: usize = 0;
    while i < x.len()
        invariant
            x@ == a@,
            y@ == b@,
            x@.len() == y@.len(),
            i <= x@.len(),
            forall|j: int| 0 <= j < i ==> x@[j] == y@[j],
        decreases x.len() - i,
    {
        if x[i] != y[i] {
            return false;
        }
        i = i + 1;
    }
    assert(x@ =~= y@);
    true
}

fn is_in_group(name: &str, group: &str, group_dot: &str) -> (r: bool)
    requires
        group_dot@ == group@ + seq!['.'],
    ensures
        r == in_group(name@, group@),
{
    text_eq(name, group) || starts_with(name, group_dot)
}

fn nth_dummy_of(entries: &Vec<LocalPlayerEntry>, n: u64) -> (r: Option<u64>)
    ensures
        r == nth_dummy(entries@, n as int),
{
    let mut i: usize = 0;
    let mut left: u64 = n;
    assert(entries@.skip(0) =~= entries@);
    while i < entries.len()
        invariant
            i <= entries@.len(),
            left <= n,
            nth_dummy(entries@, n as int) == nth_dummy(entries@.skip(i as int), left as int),
        decreases entries.len() - i,
    {
        proof {
            let t = entries@.skip(i as int);
            assert(t.drop_first() =~= entries@.skip(i + 1));
            assert(t[0] == entries@[i as int]);
        }
        if entries[i].is_dummy {
            if left == 0 {
                return Some(entries[i].id);
            }
            left = left - 1;
        }
        i = i + 1;
    }
    None
}

fn first_main_of(entries: &Vec<LocalPlayerEntry>) -> (r: Option<u64>)
    ensures
        r == first_main(entries@),
{
    let mut i: usize = 0;
    assert(entries@.skip(0) =~= entries@);
    while i < entries.len()
        invariant
            i <= entries@.len(),
            first_main(entries@) == first_main(entries@.skip(i as int)),
        decreases entries.len() - i,
    {
        proof {
            let t = entries@.skip(i as int);
            assert(t.drop_first() =~= entries@.skip(i + 1));
            assert(t[0] == entries@[i as int]);
        }
        if !entries[i].is_dummy {
            return Some(entries[i].id);
        }
        i = i + 1;
    }
    None
}

proof fn lemma_first_ipv4_range(addrs: Seq<AddressKind>)
    ensures
        first_ipv4(addrs) matches Some(i) ==> 0 <= i < addrs.len(),
    decreases addrs.len(),
{
    if addrs.len() > 0 && !addrs[0].is_ipv4 {
        lemma_first_ipv4_range(addrs.drop_first());
    }
}

fn first_ipv4_of(addrs: &Vec<AddressKind>) -> (r: Option<usize>)
    ensures
        match r {
            Some(k) => first_ipv4(addrs@) == Some(k as int),
            None => first_ipv4(addrs@) is None,
        },
{
    let mut i: usize = 0;
    assert(addrs@.skip(0) =~= addrs@);
    while i < addrs.len()
        invariant
            i <= addrs@.len(),
            first_ipv4(addrs@) == match first_ipv4(addrs@.skip(i as int)) {
                Some(j) => Some(j + i),
                None => None::<int>,
            },
        decreases addrs.len() - i,
    {
        proof {
            let t = addrs@.skip(i as int);
            assert(t.drop_first() =~= addrs@.skip(i + 1));
            assert(t[0] == addrs@[i as int]);
        }
        if addrs[i].is_ipv4 {
            return Some(i);
        }
        i = i + 1;
    }
    assert(addrs@.skip(i as int) =~= Seq::<AddressKind>::empty());
    None
}

fn choose_address_of(addrs: &Vec<AddressKind>) -> (r: Option<u64>)
    ensures
        match choose_address(addrs@) {
            Some(i) => r == Some(i as u64),
            None => r is None,
        },
{
    proof {
        lemma_first_ipv4_range(addrs@);
    }
    let c: Option<usize> = match first_ipv4_of(addrs) {
        Some(k) => Some(k),
        None => if addrs.len() > 0 {
            Some(0)
        } else {
            None
        },
    };
    match c {
        Some(k) => if addrs[k].is_loopback {
            None
        } else {
            Some(k as u64)
        },
        None => None,
    }
}

/// A console event: what the client does. `s` are the local players of
/// the active game; the caller changes the active player or binds only
/// while a game is active.
pub fn console_event_step(s: &LocalPlayers, ev: ConsoleEventKind) -> (r: ConsoleAction)
    ensures
        r == spec_console_step(s@, ev),
{
    match ev {
        ConsoleEventKind::ConnectFallback { addresses } => match choose_address_of(&addresses) {
            Some(i) => ConsoleAction::ConnectTo { index: i },
            None => ConsoleAction::Nothing,
        },
        ConsoleEventKind::ChangeDummy { dummy_index } => {
            let id = match dummy_index {
                Some(n) => nth_dummy_of(&s.entries, n),
                None => first_main_of(&s.entries),
            };
            match id {
                Some(id) => ConsoleAction::SetActive { id },
                None => ConsoleAction::Nothing,
            }
        },
        ConsoleEventKind::Rebind { was_player_profile } => ConsoleAction::Rebind {
            player_profile: was_player_profile,
        },
        ConsoleEventKind::ConfigVariable { name } => {
            proof {
                reveal_strlit("player");
                reveal_strlit("player.");
                reveal_strlit("wnd");
                reveal_strlit("wnd.");
                reveal_strlit("inp");
                reveal_strlit("inp.");
                assert("player."@ =~= "player"@ + seq!['.']);
                assert("wnd."@ =~= "wnd"@ + seq!['.']);
                assert("inp."@ =~= "inp"@ + seq!['.']);
            }
            ConsoleAction::ConfigChanged {
                player_info: is_in_group(name.as_str(), "player", "player."),
                window: is_in_group(name.as_str(), "wnd", "wnd."),
                input: is_in_group(name.as_str(), "inp", "inp."),
                vsync: text_eq(name.as_str(), "gl.vsync"),
                clear_color: text_eq(name.as_str(), "gl.clear_color"),
                msaa: text_eq(name.as_str(), "gl.msaa"),
            }
        },
        ConsoleEventKind::Quit => ConsoleAction::Quit,
    }
}

/// What trying the local server gave for a connect request.
#[derive(Debug, Clone, Copy, PartialEq, Eq, Structural)]
pub enum LocalServerResult {
    /// the local server is up: its address, certificate and rcon secret
    Connect,
    /// the local server is starting
    KeepConnecting,
    /// an error, or the address is no local server
    ErrOrNotLocalServerAddr,
}

/// Where a connect request of the ui or the console came from.
#[derive(Debug, Clone, Copy, PartialEq, Eq, Structural)]
pub enum ConnectSource {
    Ui,
    Console,
}

/// What a connect request leads to.
#[derive(Debug, Clone, Copy, PartialEq, Eq, Structural)]
pub enum ConnectStep {
    /// connect to the local server with what it shared
    ConnectLocal,
    /// ask again later, without starting a local server again
    Retry,
    /// connect with the certificate hash and rcon secret of the request
    ConnectWithHash,
    /// connect to the address [`choose_address`] picks, if any, with an
    /// unknown certificate
    ConnectChosenAddress,
}

pub open spec fn spec_connect_step(source: ConnectSource, result: LocalServerResult) -> ConnectStep {
    match result {
        LocalServerResult::Connect => ConnectStep::ConnectLocal,
        LocalServerResult::KeepConnecting => ConnectStep::Retry,
        LocalServerResult::ErrOrNotLocalServerAddr => match source {
            ConnectSource::Ui => ConnectStep::ConnectWithHash,
            ConnectSource::Console => ConnectStep::ConnectChosenAddress,
        },
    }
}

/// A connect request of the ui or the console, after the local server was
/// tried.
pub fn connect_step(source: ConnectSource, result: LocalServerResult) -> (r: ConnectStep)
    ensures
        r == spec_connect_step(source, result),
{
    match result {
        LocalServerResult::Connect => ConnectStep::ConnectLocal,
        LocalServerResult::KeepConnecting => ConnectStep::Retry,
        LocalServerResult::ErrOrNotLocalServerAddr => match source {
            ConnectSource::Ui => ConnectStep::ConnectWithHash,
            ConnectSource::Console => ConnectStep::ConnectChosenAddress,
        },
    }
}

/// The player ids of the local players the server accepted, in order.
pub open spec fn connected_ids(entries: Seq<LocalPlayerEntry>) -> Seq<u64>
    decreases entries.len(),
{
    if entries.len() == 0 {
        Seq::empty()
    } else {
        (match entries[0].player_id {
            Some(p) => seq![p],
            None => Seq::empty(),
        }) + connected_ids(entries.drop_first())
    }
}

/// A request to join a team (own, other, default or a vanilla side) goes out
/// for every local player the server accepted: the player ids to send it
/// for, in order.
pub fn team_join_players(s: &LocalPlayers) -> (r: Vec<u64>)
    ensures
        r@ == connected_ids(s@.entries),
{
    let mut r: Vec<u64> = Vec::new();
    let mut i: usize = 0;
    assert(s.entries@.skip(0) =~= s.entries@);
    assert(r@ + connected_ids(s.entries@) =~= connected_ids(s.entries@));
    while i < s.entries.len()
        invariant
            i <= s.entries@.len(),
            r@ + connected_ids(s.entries@.skip(i as int)) == connected_ids(s.entries@),
        decreases s.entries.len() - i,
    {
        proof {
            let t = s.entries@.skip(i as int);
            assert(t.drop_first() =~= s.entries@.skip(i + 1));
            assert(t[0] == s.entries@[i as int]);
        }
        let ghost before = r@;
        match s.entries[i].player_id {
            Some(p) => {
                r.push(p);
                assert(before + (seq![p] + connected_ids(s.entries@.skip(i + 1))) =~= r@
                    + connected_ids(s.entries@.skip(i + 1)));
            },
            None => {
                assert(before + (Seq::<u64>::empty() + connected_ids(s.entries@.skip(i + 1)))
                    =~= r@ + connected_ids(s.entries@.skip(i + 1)));
            },
        }
        i = i + 1;
    }
    assert(s.entries@.skip(i as int) =~= Seq::<LocalPlayerEntry>::empty());
    assert(r@ + Seq::<u64>::empty() =~= r@);
    r
}

/// The account details are asked for once per game: whether to ask now,
/// and whether they were asked for afterwards.
pub fn account_info_request(already_requested: bool) -> (r: (bool, bool))
    ensures
        r == (!already_requested, true),
{
    (!already_requested, true)
}

/// What the ui asks of demos.
#[derive(Debug, Clone, Copy, PartialEq, Eq, Structural)]
pub enum DemoUiEvent {
    PlayDemo,
    EncodeDemoToVideo,
    RecordDemo,
    StopRecordDemo,
    InstantReplay,
}

/// What the client does for a demo request.
#[derive(Debug, Clone, Copy, PartialEq, Eq, Structural)]
pub enum DemoAction {
    /// open the demo viewer on the named demo, encoding it to a video or not
    OpenViewer { encode: bool },
    /// start recording the active game by hand
    StartRecording,
    /// stop the recording started by hand
    StopRecording,
    /// turn the active game's replay buffer into a demo and view it
    ReplayAsDemo,
    Nothing,
}

/// A demo request of the ui: viewing and encoding need no game; recording,
/// stopping and the instant replay act on an active game only.
pub fn demo_ui_event_step(game_active: bool, ev: DemoUiEvent) -> (r: DemoAction)
    ensures
        r == (match ev {
            DemoUiEvent::PlayDemo => DemoAction::OpenViewer { encode: false },
            DemoUiEvent::EncodeDemoToVideo => DemoAction::OpenViewer { encode: true },
            DemoUiEvent::RecordDemo => if game_active {
                DemoAction::StartRecording
            } else {
                DemoAction::Nothing
            },
            DemoUiEvent::StopRecordDemo => if game_active {
                DemoAction::StopRecording
            } else {
                DemoAction::Nothing
            },
            DemoUiEvent::InstantReplay => if game_active {
                DemoAction::ReplayAsDemo
            } else {
                DemoAction::Nothing
            },
        }),
{
    match ev {
        DemoUiEvent::PlayDemo => DemoAction::OpenViewer { encode: false },
        DemoUiEvent::EncodeDemoToVideo => DemoAction::OpenViewer { encode: true },
        DemoUiEvent::RecordDemo => if game_active {
            DemoAction::StartRecording
        } else {
            DemoAction::Nothing
        },
        DemoUiEvent::StopRecordDemo => if game_active {
            DemoAction::StopRecording
        } else {
            DemoAction::Nothing
        },
        DemoUiEvent::InstantReplay => if game_active {
            DemoAction::ReplayAsDemo
        } else {
            DemoAction::Nothing
        },
    }
}

/// What follows turning the replay buffer into a demo.
#[derive(Debug, Clone, Copy, PartialEq, Eq, Structural)]
pub enum ReplayOutcome {
    PlayDemo,
    NotifyError { notify_secs: u64 },
}

/// The demo is viewed when the replay buffer turned into one; otherwise the
/// error is shown for ten seconds.
pub fn instant_replay_outcome(converted: bool) -> (r: ReplayOutcome)
    ensures
        r == (if converted {
            ReplayOutcome::PlayDemo
        } else {
            ReplayOutcome::NotifyError { notify_secs: 10 }
        }),
{
    if converted {
        ReplayOutcome::PlayDemo
    } else {
        ReplayOutcome::NotifyError { notify_secs: GAME_ERROR_NOTIFY_SECS }
    }
}

/// The file a demo is encoded to: `videos/<name>.mp4`.
pub open spec fn spec_video_file_name(name: Seq<char>) -> Seq<char> {
    seq!['v', 'i', 'd', 'e', 'o', 's', '/'] + name + seq!['.', 'm', 'p', '4']
}

pub fn video_file_name(video_name: &str) -> (r: String)
    ensures
        r@ == spec_video_file_name(video_name@),
{
    let mut r = String::new();
    push_char(&mut r, 'v');
    push_char(&mut r, 'i');
    push_char(&mut r, 'd');
    push_char(&mut r, 'e');
    push_char(&mut r, 'o');
    push_char(&mut r, 's');
    push_char(&mut r, '/');
    let name = chars_of(video_name);
    push_chars(&mut r, &name);
    push_char(&mut r, '.');
    push_char(&mut r, 'm');
    push_char(&mut r, 'p');
    push_char(&mut r, '4');
    assert(r@ =~= spec_video_file_name(video_name@));
    r
}

} // verus!

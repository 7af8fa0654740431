//! The dashboard's screens, input modes and application state.

use vstd::prelude::*;
use crate::ipc::{ChannelHistorySummary, ChannelInfo, ChannelType, DisplayMessage, ErrorInfo, GuildInfo};
use crate::plugins::output::{truncate_ok, truncate_str, truncated};
use crate::text::{append_decimal, append_str, chars_of, dec, str_eq, string_of, string_views};
use crate::tui::state::channels::ChannelState;
use crate::tui::state::errors::ErrorsState;

verus! {

/// Available screens in the dashboard.
#[derive(Debug, Clone, Copy, PartialEq, Eq, Structural)]
pub enum Screen {
    Dashboard,
    Channels,
    Stats,
    Users,
    Settings,
    Errors,
    Help,
}

impl Screen {
    /// The title shown for a screen.
    pub open spec fn title_text(self) -> Seq<char> {
        match self {
            Screen::Dashboard => "Dashboard"@,
            Screen::Channels => "Channel Watcher"@,
            Screen::Stats => "Usage Stats"@,
            Screen::Users => "User Analytics"@,
            Screen::Settings => "Settings"@,
            Screen::Errors => "Error Logs"@,
            Screen::Help => "Help"@,
        }
    }

    /// The key that switches to a screen.
    pub open spec fn key_char(self) -> char {
        match self {
            Screen::Dashboard => '1',
            Screen::Channels => '2',
            Screen::Stats => '3',
            Screen::Users => '4',
            Screen::Settings => '5',
            Screen::Errors => '6',
            Screen::Help => '?',
        }
    }

    /// Every screen, in tab order.
    pub open spec fn all_screens() -> Seq<Screen> {
        seq![
            Screen::Dashboard,
            Screen::Channels,
            Screen::Stats,
            Screen::Users,
            Screen::Settings,
            Screen::Errors,
            Screen::Help,
        ]
    }

    pub fn title(&self) -> (t: &'static str)
        ensures
            t@ == self.title_text(),
    {
        match self {
            Screen::Dashboard => "Dashboard",
            Screen::Channels => "Channel Watcher",
            Screen::Stats => "Usage Stats",
            Screen::Users => "User Analytics",
            Screen::Settings => "Settings",
            Screen::Errors => "Error Logs",
            Screen::Help => "Help",
        }
    }

    pub fn key(&self) -> (c: char)
        ensures
            c == self.key_char(),
    {
        match self {
            Screen::Dashboard => '1',
            Screen::Channels => '2',
            Screen::Stats => '3',
            Screen::Users => '4',
            Screen::Settings => '5',
            Screen::Errors => '6',
            Screen::Help => '?',
        }
    }

    pub fn all() -> (v: Vec<Screen>)
        ensures
            v@ == Self::all_screens(),
    {
        let v = vec![
            Screen::Dashboard,
            Screen::Channels,
            Screen::Stats,
            Screen::Users,
            Screen::Settings,
            Screen::Errors,
            Screen::Help,
        ];
        assert(v@ =~= Self::all_screens());
        v
    }
}

/// Law: every screen is listed, each screen has its own key, and so each key
/// names one screen.
pub proof fn lemma_screen_keys_distinct(a: Screen, b: Screen)
    ensures
        Screen::all_screens().contains(a),
        a.key_char() == b.key_char() ==> a == b,
{
    let all = Screen::all_screens();
    match a {
        Screen::Dashboard => assert(all[0] == a),
        Screen::Channels => assert(all[1] == a),
        Screen::Stats => assert(all[2] == a),
        Screen::Users => assert(all[3] == a),
        Screen::Settings => assert(all[4] == a),
        Screen::Errors => assert(all[5] == a),
        Screen::Help => assert(all[6] == a),
    }
}

/// Input mode for text entry.
#[derive(Debug, Clone, Copy, PartialEq, Eq, Structural)]
pub enum InputMode {
    Normal,
    Editing,
}

/// Purpose of the current input.
#[derive(Debug, Clone, Copy, PartialEq, Eq, Structural)]
pub enum InputPurpose {
    /// Adding a channel ID to watch
    AddChannel,
    /// Sending a message to a channel
    SendMessage,
}

impl Default for InputPurpose {
    fn default() -> (p: InputPurpose)
        ensures
            p == InputPurpose::AddChannel,
    {
        InputPurpose::AddChannel
    }
}

/// The tabs of the settings screen.
#[derive(Debug, Clone, Copy, PartialEq, Eq, Structural)]
pub enum SettingsTab {
    Features,
    Personas,
    Guild,
}

impl SettingsTab {
    /// The tab to the left, wrapping around.
    pub open spec fn left(self) -> SettingsTab {
        match self {
            SettingsTab::Features => SettingsTab::Guild,
            SettingsTab::Personas => SettingsTab::Features,
            SettingsTab::Guild => SettingsTab::Personas,
        }
    }

    /// The tab to the right, wrapping around.
    pub open spec fn right(self) -> SettingsTab {
        match self {
            SettingsTab::Features => SettingsTab::Personas,
            SettingsTab::Personas => SettingsTab::Guild,
            SettingsTab::Guild => SettingsTab::Features,
        }
    }

    pub fn all() -> (v: Vec<SettingsTab>)
        ensures
            v@ == seq![SettingsTab::Features, SettingsTab::Personas, SettingsTab::Guild],
    {
        let v = vec![SettingsTab::Features, SettingsTab::Personas, SettingsTab::Guild];
        assert(v@ =~= seq![SettingsTab::Features, SettingsTab::Personas, SettingsTab::Guild]);
        v
    }
}

/// Law: moving one tab right and one left comes back to the same tab.
pub proof fn lemma_settings_tabs_inverse(t: SettingsTab)
    ensures
        t.right().left() == t,
        t.left().right() == t,
        t.right().right().right() == t,
{
}

/// How many activity entries are kept.
pub const ACTIVITY_LOG_LIMIT: usize = 100;

/// How many settings the guild tab lists.
pub const GUILD_SETTINGS_COUNT: usize = 10;

/// The entries kept after appending `entry`: the oldest goes once the log
/// holds more than the limit.
pub open spec fn appended_log(log: Seq<Seq<char>>, entry: Seq<char>) -> Seq<Seq<char>> {
    if log.len() + 1 > ACTIVITY_LOG_LIMIT {
        log.push(entry).drop_first()
    } else {
        log.push(entry)
    }
}

/// An activity entry: the time, in brackets, then the message.
pub open spec fn activity_entry(time: Seq<char>, msg: Seq<char>) -> Seq<char> {
    "["@ + time + "] "@ + msg
}

/// The activity line for a new message.
pub open spec fn message_activity(channel_id: u64, m: DisplayMessage) -> Seq<char> {
    "#"@ + dec(channel_id as nat) + ": "@ + m.author_name@ + " - "@ + truncated(m.content@, 50)
}

/// The first recorded state of feature `id`, if any.
pub open spec fn feature_state(states: Seq<(String, bool)>, id: Seq<char>) -> Option<bool>
    decreases states.len(),
{
    if states.len() == 0 {
        None
    } else if states[0].0@ == id {
        Some(states[0].1)
    } else {
        feature_state(states.drop_first(), id)
    }
}

/// The channels of `channels` that can hold text, in order.
pub open spec fn text_channels(channels: Seq<ChannelInfo>) -> Seq<ChannelInfo>
    decreases channels.len(),
{
    if channels.len() == 0 {
        channels
    } else {
        let rest = text_channels(channels.drop_last());
        match channels.last().channel_type {
            ChannelType::Text | ChannelType::News | ChannelType::Thread | ChannelType::Forum => rest.push(
                channels.last(),
            ),
            _ => rest,
        }
    }
}

/// The last index of `r` holding channel `id`, or -1.
pub open spec fn entry_index(r: Seq<ChannelHistorySummary>, id: u64) -> int
    decreases r.len(),
{
    if r.len() == 0 {
        -1
    } else if r.last().channel_id == id {
        r.len() - 1
    } else {
        entry_index(r.drop_last(), id)
    }
}

/// `r` with `x` in place of the entry for its channel, or appended.
pub open spec fn upsert(r: Seq<ChannelHistorySummary>, x: ChannelHistorySummary) -> Seq<ChannelHistorySummary> {
    let k = entry_index(r, x.channel_id);
    if k >= 0 {
        r.update(k, x)
    } else {
        r.push(x)
    }
}

/// One entry per channel of `s`, in order of first appearance, each the
/// channel's last entry in `s`.
pub open spec fn history_table(s: Seq<ChannelHistorySummary>) -> Seq<ChannelHistorySummary>
    decreases s.len(),
{
    if s.len() == 0 {
        s
    } else {
        upsert(history_table(s.drop_last()), s.last())
    }
}

/// The channel ids of `s`, in order.
pub open spec fn history_ids(s: Seq<ChannelHistorySummary>) -> Seq<u64> {
    s.map_values(|c: ChannelHistorySummary| c.channel_id)
}

/// The ids of `ids` that `watched` lacks, once each, in order of first
/// appearance.
pub open spec fn new_watches(watched: Set<u64>, ids: Seq<u64>) -> Seq<u64>
    decreases ids.len(),
{
    if ids.len() == 0 {
        Seq::empty()
    } else {
        let r = new_watches(watched, ids.drop_last());
        if watched.contains(ids.last()) || r.contains(ids.last()) {
            r
        } else {
            r.push(ids.last())
        }
    }
}

proof fn lemma_new_watches_watched(watched: Set<u64>, ids: Seq<u64>, id: u64)
    ensures
        new_watches(watched, ids).contains(id) <==> (!watched.contains(id) && ids.contains(id)),
    decreases ids.len(),
{
    if ids.len() > 0 {
        lemma_new_watches_watched(watched, ids.drop_last(), id);
        let r = new_watches(watched, ids.drop_last());
        if ids.contains(id) && !ids.drop_last().contains(id) {
            let k = choose|k: int| 0 <= k < ids.len() && ids[k] == id;
            if k < ids.len() - 1 {
                assert(ids.drop_last()[k] == id);
            }
        }
        if ids.drop_last().contains(id) {
            let k = choose|k: int| 0 <= k < ids.drop_last().len() && ids.drop_last()[k] == id;
            assert(ids[k] == id);
        }
        if !watched.contains(ids.last()) && !r.contains(ids.last()) {
            assert(r.push(ids.last())[r.len() as int] == ids.last());
            if r.push(ids.last()).contains(id) && id != ids.last() {
                let k = choose|k: int| 0 <= k < r.push(ids.last()).len() && r.push(ids.last())[k] == id;
                assert(r[k] == id);
            }
            if r.contains(id) {
                let k = choose|k: int| 0 <= k < r.len() && r[k] == id;
                assert(r.push(ids.last())[k] == id);
            }
        }
    }
}

proof fn lemma_entry_index(r: Seq<ChannelHistorySummary>, id: u64)
    ensures
        -1 <= entry_index(r, id) < r.len(),
        entry_index(r, id) >= 0 ==> r[entry_index(r, id)].channel_id == id,
        entry_index(r, id) < 0 ==> forall|k: int| 0 <= k < r.len() ==> r[k].channel_id != id,
    decreases r.len(),
{
    if r.len() > 0 {
        lemma_entry_index(r.drop_last(), id);
        if r.last().channel_id != id {
            assert forall|k: int| 0 <= k < r.len() - 1 implies r[k] == r.drop_last()[k] by {}
        }
    }
}

/// Law: the history table never lists a channel twice.
pub proof fn lemma_history_table_unique(s: Seq<ChannelHistorySummary>)
    ensures
        forall|i: int, j: int| 0 <= i < j < history_table(s).len() ==> history_table(s)[i].channel_id
            != history_table(s)[j].channel_id,
    decreases s.len(),
{
    if s.len() > 0 {
        let r = history_table(s.drop_last());
        lemma_history_table_unique(s.drop_last());
        lemma_entry_index(r, s.last().channel_id);
        let t = upsert(r, s.last());
        assert forall|i: int, j: int| 0 <= i < j < t.len() implies t[i].channel_id != t[j].channel_id by {
            let k = entry_index(r, s.last().channel_id);
            if k < 0 && j == r.len() {
                assert(t[i] == r[i]);
            }
        }
    }
}

/// The history entries of guild `gid` whose channel is not among `chans`.
pub open spec fn db_only(db: Seq<ChannelHistorySummary>, gid: u64, chans: Seq<ChannelInfo>) -> Seq<ChannelHistorySummary>
    decreases db.len(),
{
    if db.len() == 0 {
        db
    } else {
        let r = db_only(db.drop_last(), gid, chans);
        let e = db.last();
        if e.guild_id == Some(gid) && !(exists|k: int| 0 <= k < chans.len() && chans[k].id == e.channel_id) {
            r.push(e)
        } else {
            r
        }
    }
}

/// A channel in the browse list: its id, name and stored message count.
pub struct BrowseEntry {
    pub id: u64,
    pub name: String,
    pub message_count: Option<u64>,
}

impl View for BrowseEntry {
    type V = (u64, Seq<char>, Option<u64>);

    open spec fn view(&self) -> (u64, Seq<char>, Option<u64>) {
        (self.id, self.name@, self.message_count)
    }
}

/// The views of browse entries.
pub open spec fn entry_views(s: Seq<BrowseEntry>) -> Seq<(u64, Seq<char>, Option<u64>)> {
    s.map_values(|e: BrowseEntry| e@)
}

/// `a` comes before `b` in character order (as `str` compares).
pub open spec fn str_less(a: Seq<char>, b: Seq<char>) -> bool
    decreases a.len(),
{
    if b.len() == 0 {
        false
    } else if a.len() == 0 {
        true
    } else if a[0] != b[0] {
        (a[0] as u32) < (b[0] as u32)
    } else {
        str_less(a.drop_first(), b.drop_first())
    }
}

/// Browse order: more stored messages first, channels with stored messages
/// before those without, and those by name.
pub open spec fn entry_before(a: (u64, Seq<char>, Option<u64>), b: (u64, Seq<char>, Option<u64>)) -> bool {
    match (a.2, b.2) {
        (Some(x), Some(y)) => x > y,
        (Some(_), None) => true,
        (None, Some(_)) => false,
        (None, None) => str_less(a.1, b.1),
    }
}

/// Where `x` goes in `r`: before the first entry it comes before.
pub open spec fn insert_position(r: Seq<(u64, Seq<char>, Option<u64>)>, x: (u64, Seq<char>, Option<u64>)) -> int
    decreases r.len(),
{
    if r.len() == 0 {
        0
    } else if entry_before(x, r[0]) {
        0
    } else {
        1 + insert_position(r.drop_first(), x)
    }
}

/// `s` in browse order, entries that tie keeping their order (a stable sort).
pub open spec fn browse_sorted(s: Seq<(u64, Seq<char>, Option<u64>)>) -> Seq<(u64, Seq<char>, Option<u64>)>
    decreases s.len(),
{
    if s.len() == 0 {
        s
    } else {
        let r = browse_sorted(s.drop_last());
        r.insert(insert_position(r, s.last()), s.last())
    }
}

/// The stored message count of channel `id`.
pub open spec fn history_count(db: Seq<ChannelHistorySummary>, id: u64) -> Option<u64> {
    let k = entry_index(db, id);
    if k >= 0 {
        Some(db[k].message_count)
    } else {
        None
    }
}

/// The name shown for a channel known only from stored history.
pub open spec fn stored_name(e: ChannelHistorySummary) -> Seq<char> {
    match e.channel_name {
        Some(n) => n@,
        None => dec(e.channel_id as nat),
    }
}

/// The browse entry of a channel known only from stored history.
pub open spec fn stored_entry(h: ChannelHistorySummary) -> (u64, Seq<char>, Option<u64>) {
    (h.channel_id, stored_name(h), Some(h.message_count))
}

proof fn lemma_insert_position_bound(r: Seq<(u64, Seq<char>, Option<u64>)>, x: (u64, Seq<char>, Option<u64>))
    ensures
        0 <= insert_position(r, x) <= r.len(),
    decreases r.len(),
{
    if r.len() > 0 && !entry_before(x, r[0]) {
        lemma_insert_position_bound(r.drop_first(), x);
    }
}

proof fn lemma_browse_sorted_len(s: Seq<(u64, Seq<char>, Option<u64>)>)
    ensures
        browse_sorted(s).len() == s.len(),
    decreases s.len(),
{
    if s.len() > 0 {
        lemma_browse_sorted_len(s.drop_last());
        lemma_insert_position_bound(browse_sorted(s.drop_last()), s.last());
    }
}

proof fn lemma_str_less_transitive(a: Seq<char>, b: Seq<char>, c: Seq<char>)
    requires
        str_less(a, b),
        str_less(b, c),
    ensures
        str_less(a, c),
    decreases a.len(),
{
    if a.len() > 0 && b.len() > 0 && c.len() > 0 && a[0] == b[0] && b[0] == c[0] {
        lemma_str_less_transitive(a.drop_first(), b.drop_first(), c.drop_first());
    }
}

proof fn lemma_str_less_irreflexive(a: Seq<char>)
    ensures
        !str_less(a, a),
    decreases a.len(),
{
    if a.len() > 0 {
        lemma_str_less_irreflexive(a.drop_first());
    }
}

proof fn lemma_entry_before_transitive(
    a: (u64, Seq<char>, Option<u64>),
    b: (u64, Seq<char>, Option<u64>),
    c: (u64, Seq<char>, Option<u64>),
)
    requires
        entry_before(a, b),
        entry_before(b, c),
    ensures
        entry_before(a, c),
{
    if a.2 is None && b.2 is None && c.2 is None {
        lemma_str_less_transitive(a.1, b.1, c.1);
    }
}

proof fn lemma_insert_position_spot(r: Seq<(u64, Seq<char>, Option<u64>)>, x: (u64, Seq<char>, Option<u64>))
    ensures
        forall|k: int| 0 <= k < insert_position(r, x) ==> !entry_before(x, #[trigger] r[k]),
        insert_position(r, x) < r.len() ==> entry_before(x, r[insert_position(r, x)]),
    decreases r.len(),
{
    if r.len() > 0 && !entry_before(x, r[0]) {
        lemma_insert_position_spot(r.drop_first(), x);
        lemma_insert_position_bound(r.drop_first(), x);
        assert forall|k: int| 0 <= k < insert_position(r, x) implies !entry_before(x, #[trigger] r[k]) by {
            if k > 0 {
                assert(r[k] == r.drop_first()[k - 1]);
            }
        }
        if insert_position(r, x) < r.len() {
            assert(r[insert_position(r, x)] == r.drop_first()[insert_position(r.drop_first(), x)]);
        }
    }
}

/// Law: the browse list is in browse order: no channel comes before one
/// listed ahead of it.
pub proof fn lemma_browse_sorted_ordered(s: Seq<(u64, Seq<char>, Option<u64>)>)
    ensures
        forall|i: int, j: int| 0 <= i < j < browse_sorted(s).len() ==> !entry_before(
            #[trigger] browse_sorted(s)[j],
            #[trigger] browse_sorted(s)[i],
        ),
    decreases s.len(),
{
    if s.len() > 0 {
        let r = browse_sorted(s.drop_last());
        let x = s.last();
        lemma_browse_sorted_ordered(s.drop_last());
        lemma_insert_position_bound(r, x);
        lemma_insert_position_spot(r, x);
        let p = insert_position(r, x);
        let t = r.insert(p, x);
        assert forall|i: int, j: int| 0 <= i < j < t.len() implies !entry_before(#[trigger] t[j], #[trigger] t[i]) by {
            if i == p {
                assert(t[j] == r[j - 1]);
                if entry_before(r[j - 1], x) {
                    lemma_entry_before_transitive(r[j - 1], x, r[p]);
                    if j - 1 > p {
                        assert(!entry_before(r[j - 1], r[p]));
                    } else {
                        lemma_str_less_irreflexive(r[p].1);
                    }
                }
            } else if j == p {
                assert(t[i] == r[i]);
            } else {
                let oi = if i < p { i } else { i - 1 };
                let oj = if j < p { j } else { j - 1 };
                assert(t[i] == r[oi]);
                assert(t[j] == r[oj]);
                if oi == oj {
                    assert(false);
                }
            }
        }
    }
}

fn chars_less(a: &[char], b: &[char]) -> (r: bool)
    ensures
        r == str_less(a@, b@),
{
    let mut i: usize = 0;
    assert(a@.skip(0) =~= a@);
    assert(b@.skip(0) =~= b@);
    while i < a.len() && i < b.len() && a[i] == b[i]
        invariant
            i <= a@.len(),
            i <= b@.len(),
            str_less(a@, b@) == str_less(a@.skip(i as int), b@.skip(i as int)),
        decreases a@.len() - i,
    {
        assert(a@.skip(i as int).drop_first() =~= a@.skip(i + 1));
        assert(b@.skip(i as int).drop_first() =~= b@.skip(i + 1));
        assert(a@.skip(i as int)[0] == a@[i as int]);
        assert(b@.skip(i as int)[0] == b@[i as int]);
        i = i + 1;
    }
    if i == b.len() {
        assert(b@.skip(i as int).len() == 0);
        false
    } else if i == a.len() {
        assert(a@.skip(i as int).len() == 0);
        true
    } else {
        assert(a@.skip(i as int)[0] == a@[i as int]);
        assert(b@.skip(i as int)[0] == b@[i as int]);
        (a[i] as u32) < (b[i] as u32)
    }
}

fn entry_before_exec(a: &BrowseEntry, b: &BrowseEntry) -> (r: bool)
    ensures
        r == entry_before(a@, b@),
{
    match (a.message_count, b.message_count) {
        (Some(x), Some(y)) => x > y,
        (Some(_), None) => true,
        (None, Some(_)) => false,
        (None, None) => {
            let x = chars_of(a.name.as_str());
            let y = chars_of(b.name.as_str());
            chars_less(x.as_slice(), y.as_slice())
        },
    }
}

/// Sorts `v` into browse order, stably.
fn sort_browse(v: Vec<BrowseEntry>) -> (r: Vec<BrowseEntry>)
    ensures
        entry_views(r@) == browse_sorted(entry_views(v@)),
{
    let ghost all = v@;
    let ghost av = entry_views(all);
    let mut rest = v;
    let mut sorted: Vec<BrowseEntry> = Vec::new();
    let mut i: usize = 0;
    let n = rest.len();
    assert(av.take(0) =~= Seq::<(u64, Seq<char>, Option<u64>)>::empty());
    assert(entry_views(sorted@) =~= Seq::<(u64, Seq<char>, Option<u64>)>::empty());
    while rest.len() > 0
        invariant
            n == all.len(),
            av == entry_views(all),
            i + rest@.len() == n,
            rest@ =~= all.skip(i as int),
            entry_views(sorted@) == browse_sorted(av.take(i as int)),
        decreases rest@.len(),
    {
        let x = rest.remove(0);
        proof {
            assert(x == all[i as int]);
            assert(rest@ =~= all.skip(i + 1));
            assert(av.take(i + 1).drop_last() =~= av.take(i as int));
            assert(av.take(i + 1).last() == x@);
        }
        let mut p: usize = 0;
        let ghost r = entry_views(sorted@);
        proof {
            assert(r.skip(0) =~= r);
        }
        while p < sorted.len() && !entry_before_exec(&x, &sorted[p])
            invariant
                p <= r.len(),
                r == entry_views(sorted@),
                insert_position(r, x@) == p + insert_position(r.skip(p as int), x@),
            decreases r.len() - p,
        {
            assert(r.skip(p as int)[0] == r[p as int]);
            assert(r.skip(p as int).drop_first() =~= r.skip(p + 1));
            p = p + 1;
        }
        proof {
            if p < r.len() {
                assert(r.skip(p as int)[0] == r[p as int]);
            }
        }
        let ghost before = sorted@;
        sorted.insert(p, x);
        assert(entry_views(sorted@) =~= r.insert(p as int, x@));
        i = i + 1;
    }
    assert(av.take(n as int) =~= av);
    sorted
}

/// Main application state.
pub struct App {
    /// Current screen
    pub current_screen: Screen,
    /// Whether the app should quit
    pub should_quit: bool,
    /// IPC connection status
    pub connected: bool,
    /// Bot connection status (to Discord)
    pub bot_connected: bool,
    /// Known guilds
    pub guilds: Vec<GuildInfo>,
    /// Bot username
    pub bot_username: Option<String>,
    /// Bot user ID
    pub bot_user_id: Option<u64>,
    /// Uptime in seconds
    pub uptime_seconds: u64,
    /// Active session count
    pub active_sessions: usize,
    /// Channel state (watched channels, messages)
    pub channel_state: ChannelState,
    /// Errors state (error logs)
    pub errors_state: ErrorsState,
    /// Current input mode
    pub input_mode: InputMode,
    /// Purpose of the current input
    pub input_purpose: InputPurpose,
    /// Input buffer for text entry
    pub input_buffer: String,
    /// Selected index for lists
    pub selected_index: usize,
    /// Current settings tab
    pub settings_tab: SettingsTab,
    /// Selection index for Features tab
    pub settings_feature_index: usize,
    /// Selection index for Personas tab
    pub settings_persona_index: usize,
    /// Selection index for Guild Settings tab
    pub settings_guild_index: usize,
    /// Feature enabled/disabled states (feature id, enabled)
    pub feature_states: Vec<(String, bool)>,
    /// Error message to display
    pub error_message: Option<String>,
    /// Status message to display
    pub status_message: Option<String>,
    /// Last heartbeat timestamp
    pub last_heartbeat: Option<i64>,
    /// Activity log (recent events)
    pub activity_log: Vec<String>,
    /// Browse mode for channel selection
    pub browse_mode: bool,
    /// Selected guild index in browse mode
    pub browse_guild_index: usize,
    /// Selected channel index in browse mode
    pub browse_channel_index: usize,
    /// Whether channel pane is active in browse mode (false=guilds, true=channels)
    pub browse_channel_pane_active: bool,
    /// Channels with conversation history from the database, one entry per channel
    pub db_channel_history: Vec<ChannelHistorySummary>,
    /// Channels pending IPC watch subscription (auto-watched from DB history)
    pub pending_watches: Vec<u64>,
}

impl App {
    /// The state is consistent: the channel state is well formed and no
    /// channel has two history entries.
    pub open spec fn wf(&self) -> bool {
        &&& self.channel_state.wf()
        &&& forall|i: int, j: int| 0 <= i < j < self.db_channel_history@.len()
            ==> self.db_channel_history@[i].channel_id != self.db_channel_history@[j].channel_id
    }

    /// Screen, input and list selection are as in `other`.
    pub open spec fn same_navigation(&self, other: &App) -> bool {
        &&& self.current_screen == other.current_screen
        &&& self.should_quit == other.should_quit
        &&& self.input_mode == other.input_mode
        &&& self.input_purpose == other.input_purpose
        &&& self.input_buffer@ == other.input_buffer@
        &&& self.selected_index == other.selected_index
    }

    /// The settings screen's state is as in `other`.
    pub open spec fn same_settings(&self, other: &App) -> bool {
        &&& self.settings_tab == other.settings_tab
        &&& self.settings_feature_index == other.settings_feature_index
        &&& self.settings_persona_index == other.settings_persona_index
        &&& self.settings_guild_index == other.settings_guild_index
        &&& self.feature_states@ == other.feature_states@
    }

    /// Browse mode's state is as in `other`.
    pub open spec fn same_browse(&self, other: &App) -> bool {
        &&& self.browse_mode == other.browse_mode
        &&& self.browse_guild_index == other.browse_guild_index
        &&& self.browse_channel_index == other.browse_channel_index
        &&& self.browse_channel_pane_active == other.browse_channel_pane_active
    }

    /// What is known of the bot is as in `other`.
    pub open spec fn same_bot(&self, other: &App) -> bool {
        &&& self.connected == other.connected
        &&& self.bot_connected == other.bot_connected
        &&& self.guilds@ == other.guilds@
        &&& self.bot_username == other.bot_username
        &&& self.bot_user_id == other.bot_user_id
        &&& self.uptime_seconds == other.uptime_seconds
        &&& self.active_sessions == other.active_sessions
        &&& self.last_heartbeat == other.last_heartbeat
        &&& self.error_message == other.error_message
        &&& self.status_message == other.status_message
    }

    /// Channels, errors, history entries and pending watches are as in `other`.
    pub open spec fn same_stores(&self, other: &App) -> bool {
        &&& self.channel_state == other.channel_state
        &&& self.errors_state == other.errors_state
        &&& self.db_channel_history@ == other.db_channel_history@
        &&& self.pending_watches@ == other.pending_watches@
    }

    pub fn new() -> (a: Self)
        ensures
            a.wf(),
            a.current_screen == Screen::Dashboard,
            !a.should_quit,
            !a.connected,
            !a.bot_connected,
            a.guilds@.len() == 0,
            a.bot_username is None,
            a.bot_user_id is None,
            a.uptime_seconds == 0,
            a.active_sessions == 0,
            a.channel_state.watched_set() == Set::<u64>::empty(),
            a.errors_state.errors@.len() == 0,
            a.input_mode == InputMode::Normal,
            a.input_purpose == InputPurpose::AddChannel,
            a.input_buffer@.len() == 0,
            a.selected_index == 0,
            a.settings_tab == SettingsTab::Features,
            a.settings_feature_index == 0,
            a.settings_persona_index == 0,
            a.settings_guild_index == 0,
            a.feature_states@.len() == 0,
            a.error_message is None,
            a.status_message is None,
            a.last_heartbeat is None,
            a.activity_log@.len() == 0,
            !a.browse_mode,
            a.browse_guild_index == 0,
            a.browse_channel_index == 0,
            !a.browse_channel_pane_active,
            a.db_channel_history@.len() == 0,
            a.pending_watches@.len() == 0,
    {
        App {
            current_screen: Screen::Dashboard,
            should_quit: false,
            connected: false,
            bot_connected: false,
            guilds: Vec::new(),
            bot_username: None,
            bot_user_id: None,
            uptime_seconds: 0,
            active_sessions: 0,
            channel_state: ChannelState::new(),
            errors_state: ErrorsState::new(),
            input_mode: InputMode::Normal,
            input_purpose: InputPurpose::default(),
            input_buffer: String::new(),
            selected_index: 0,
            settings_tab: SettingsTab::Features,
            settings_feature_index: 0,
            settings_persona_index: 0,
            settings_guild_index: 0,
            feature_states: Vec::new(),
            error_message: None,
            status_message: None,
            last_heartbeat: None,
            activity_log: Vec::new(),
            browse_mode: false,
            browse_guild_index: 0,
            browse_channel_index: 0,
            browse_channel_pane_active: false,
            db_channel_history: Vec::new(),
            pending_watches: Vec::new(),
        }
    }

    /// Switch to a screen: the selection goes back to the top and any input
    /// is dropped.
    pub fn switch_screen(&mut self, screen: Screen)
        ensures
            final(self).current_screen == screen,
            final(self).selected_index == 0,
            final(self).input_mode == InputMode::Normal,
            final(self).input_buffer@.len() == 0,
            final(self).should_quit == old(self).should_quit,
            final(self).input_purpose == old(self).input_purpose,
            final(self).same_settings(&*old(self)),
            final(self).same_browse(&*old(self)),
            final(self).same_bot(&*old(self)),
            final(self).same_stores(&*old(self)),
            final(self).activity_log@ == old(self).activity_log@,
    {
        self.current_screen = screen;
        self.selected_index = 0;
        self.input_mode = InputMode::Normal;
        self.input_buffer = String::new();
    }

    /// Add an activity entry stamped with `time`; only the latest entries are
    /// kept.
    pub fn add_activity(&mut self, msg: &str, time: &str)
        ensures
            string_views(final(self).activity_log@) == appended_log(
                string_views(old(self).activity_log@),
                activity_entry(time@, msg@),
            ),
            final(self).same_navigation(&*old(self)),
            final(self).same_settings(&*old(self)),
            final(self).same_browse(&*old(self)),
            final(self).same_bot(&*old(self)),
            final(self).same_stores(&*old(self)),
    {
        let mut v: Vec<char> = Vec::new();
        append_str(&mut v, "[");
        append_str(&mut v, time);
        append_str(&mut v, "] ");
        append_str(&mut v, msg);
        let entry = string_of(v.as_slice());
        let ghost before = string_views(self.activity_log@);
        self.activity_log.push(entry);
        assert(string_views(self.activity_log@) =~= before.push(activity_entry(time@, msg@)));
        if self.activity_log.len() > ACTIVITY_LOG_LIMIT {
            let ghost pushed = self.activity_log@;
            self.activity_log.remove(0);
            assert(self.activity_log@ =~= pushed.drop_first());
            assert(string_views(self.activity_log@) =~= string_views(pushed).drop_first());
        }
    }

    /// The bot reported it is ready: its guilds and identity.
    pub fn on_ready(&mut self, guilds: Vec<GuildInfo>, bot_user_id: u64, bot_username: String, time: &str)
        ensures
            final(self).bot_connected,
            final(self).guilds@ == guilds@,
            final(self).bot_user_id == Some(bot_user_id),
            final(self).bot_username matches Some(n) && n@ == bot_username@,
            string_views(final(self).activity_log@) == appended_log(
                string_views(old(self).activity_log@),
                activity_entry(time@, "Bot connected: "@ + bot_username@),
            ),
            final(self).connected == old(self).connected,
            final(self).uptime_seconds == old(self).uptime_seconds,
            final(self).active_sessions == old(self).active_sessions,
            final(self).last_heartbeat == old(self).last_heartbeat,
            final(self).error_message == old(self).error_message,
            final(self).status_message == old(self).status_message,
            final(self).same_navigation(&*old(self)),
            final(self).same_settings(&*old(self)),
            final(self).same_browse(&*old(self)),
            final(self).same_stores(&*old(self)),
    {
        self.bot_connected = true;
        self.guilds = guilds;
        self.bot_user_id = Some(bot_user_id);
        let mut v: Vec<char> = Vec::new();
        append_str(&mut v, "Bot connected: ");
        append_str(&mut v, bot_username.as_str());
        let msg = string_of(v.as_slice());
        self.bot_username = Some(bot_username);
        self.add_activity(msg.as_str(), time);
    }

    /// The bot lost its Discord connection, for `reason` if one was given.
    pub fn on_disconnected(&mut self, reason: Option<String>, time: &str)
        ensures
            !final(self).bot_connected,
            string_views(final(self).activity_log@) == appended_log(
                string_views(old(self).activity_log@),
                activity_entry(time@, "Bot disconnected: "@ + match reason {
                    Some(r) => r@,
                    None => "Unknown reason"@,
                }),
            ),
            final(self).connected == old(self).connected,
            final(self).guilds@ == old(self).guilds@,
            final(self).bot_username == old(self).bot_username,
            final(self).bot_user_id == old(self).bot_user_id,
            final(self).uptime_seconds == old(self).uptime_seconds,
            final(self).active_sessions == old(self).active_sessions,
            final(self).last_heartbeat == old(self).last_heartbeat,
            final(self).error_message == old(self).error_message,
            final(self).status_message == old(self).status_message,
            final(self).same_navigation(&*old(self)),
            final(self).same_settings(&*old(self)),
            final(self).same_browse(&*old(self)),
            final(self).same_stores(&*old(self)),
    {
        self.bot_connected = false;
        let mut v: Vec<char> = Vec::new();
        append_str(&mut v, "Bot disconnected: ");
        match &reason {
            Some(r) => append_str(&mut v, r.as_str()),
            None => append_str(&mut v, "Unknown reason"),
        }
        let msg = string_of(v.as_slice());
        self.add_activity(msg.as_str(), time);
    }

    /// A message arrived in a channel: it joins the channel's buffer if the
    /// channel is watched, and is logged with its content cut to 50 bytes.
    pub fn on_message_create(&mut self, channel_id: u64, message: DisplayMessage, time: &str)
        requires
            old(self).wf(),
            truncate_ok(message.content@, 50),
        ensures
            final(self).wf(),
            final(self).channel_state.buffer(channel_id) == if old(self).channel_state.watched_set().contains(
                channel_id,
            ) {
                Some(crate::tui::state::channels::keep_latest(match old(self).channel_state.buffer(channel_id) {
                    Some(b) => b,
                    None => Seq::<DisplayMessage>::empty(),
                }.push(message)))
            } else {
                old(self).channel_state.buffer(channel_id)
            },
            forall|id: u64| id != channel_id ==> #[trigger] final(self).channel_state.buffer(id)
                == old(self).channel_state.buffer(id),
            final(self).channel_state.watched_set() == old(self).channel_state.watched_set(),
            string_views(final(self).activity_log@) == appended_log(
                string_views(old(self).activity_log@),
                activity_entry(time@, message_activity(channel_id, message)),
            ),
            final(self).same_navigation(&*old(self)),
            final(self).same_settings(&*old(self)),
            final(self).same_browse(&*old(self)),
            final(self).same_bot(&*old(self)),
            final(self).errors_state == old(self).errors_state,
            final(self).db_channel_history@ == old(self).db_channel_history@,
            final(self).pending_watches@ == old(self).pending_watches@,
    {
        let mut v: Vec<char> = Vec::new();
        append_str(&mut v, "#");
        append_decimal(&mut v, channel_id);
        append_str(&mut v, ": ");
        append_str(&mut v, message.author_name.as_str());
        append_str(&mut v, " - ");
        let cut = truncate_str(message.content.as_str(), 50);
        append_str(&mut v, cut.as_str());
        let msg = string_of(v.as_slice());
        self.channel_state.add_message(channel_id, message);
        self.add_activity(msg.as_str(), time);
    }

    /// A message was deleted.
    pub fn on_message_delete(&mut self, channel_id: u64, message_id: u64)
        requires
            old(self).wf(),
        ensures
            final(self).wf(),
            final(self).channel_state.buffer(channel_id) == match old(self).channel_state.buffer(channel_id) {
                Some(b) => Some(crate::tui::state::channels::without_message(b, message_id)),
                None => None,
            },
            forall|id: u64| id != channel_id ==> #[trigger] final(self).channel_state.buffer(id)
                == old(self).channel_state.buffer(id),
            final(self).channel_state.watched_set() == old(self).channel_state.watched_set(),
            final(self).activity_log@ == old(self).activity_log@,
            final(self).same_navigation(&*old(self)),
            final(self).same_settings(&*old(self)),
            final(self).same_browse(&*old(self)),
            final(self).same_bot(&*old(self)),
            final(self).errors_state == old(self).errors_state,
            final(self).db_channel_history@ == old(self).db_channel_history@,
            final(self).pending_watches@ == old(self).pending_watches@,
    {
        self.channel_state.remove_message(channel_id, message_id);
    }

    /// A status report from the bot.
    pub fn on_status_update(&mut self, connected: bool, uptime_seconds: u64, active_sessions: usize)
        ensures
            final(self).bot_connected == connected,
            final(self).uptime_seconds == uptime_seconds,
            final(self).active_sessions == active_sessions,
            final(self).connected == old(self).connected,
            final(self).guilds@ == old(self).guilds@,
            final(self).bot_username == old(self).bot_username,
            final(self).bot_user_id == old(self).bot_user_id,
            final(self).last_heartbeat == old(self).last_heartbeat,
            final(self).error_message == old(self).error_message,
            final(self).status_message == old(self).status_message,
            final(self).activity_log@ == old(self).activity_log@,
            final(self).same_navigation(&*old(self)),
            final(self).same_settings(&*old(self)),
            final(self).same_browse(&*old(self)),
            final(self).same_stores(&*old(self)),
    {
        self.bot_connected = connected;
        self.uptime_seconds = uptime_seconds;
        self.active_sessions = active_sessions;
    }

    /// The answer to a command: its message becomes the status line when it
    /// succeeded, the error line when it failed.
    pub fn on_command_response(&mut self, success: bool, message: Option<String>)
        ensures
            success ==> final(self).status_message == message && final(self).error_message
                == old(self).error_message,
            !success ==> final(self).error_message == message && final(self).status_message
                == old(self).status_message,
            final(self).connected == old(self).connected,
            final(self).bot_connected == old(self).bot_connected,
            final(self).guilds@ == old(self).guilds@,
            final(self).bot_username == old(self).bot_username,
            final(self).bot_user_id == old(self).bot_user_id,
            final(self).uptime_seconds == old(self).uptime_seconds,
            final(self).active_sessions == old(self).active_sessions,
            final(self).last_heartbeat == old(self).last_heartbeat,
            final(self).activity_log@ == old(self).activity_log@,
            final(self).same_navigation(&*old(self)),
            final(self).same_settings(&*old(self)),
            final(self).same_browse(&*old(self)),
            final(self).same_stores(&*old(self)),
    {
        if success {
            self.status_message = message;
        } else {
            self.error_message = message;
        }
    }

    /// A heartbeat from the bot.
    pub fn on_heartbeat(&mut self, timestamp: i64)
        ensures
            final(self).last_heartbeat == Some(timestamp),
            final(self).connected == old(self).connected,
            final(self).bot_connected == old(self).bot_connected,
            final(self).guilds@ == old(self).guilds@,
            final(self).bot_username == old(self).bot_username,
            final(self).bot_user_id == old(self).bot_user_id,
            final(self).uptime_seconds == old(self).uptime_seconds,
            final(self).active_sessions == old(self).active_sessions,
            final(self).error_message == old(self).error_message,
            final(self).status_message == old(self).status_message,
            final(self).activity_log@ == old(self).activity_log@,
            final(self).same_navigation(&*old(self)),
            final(self).same_settings(&*old(self)),
            final(self).same_browse(&*old(self)),
            final(self).same_stores(&*old(self)),
    {
        self.last_heartbeat = Some(timestamp);
    }

    /// Information about a channel.
    pub fn on_channel_info(
        &mut self,
        channel_id: u64,
        name: String,
        guild_id: Option<u64>,
        guild_name: Option<String>,
        message_count: u64,
    )
        requires
            old(self).wf(),
        ensures
            final(self).wf(),
            final(self).channel_state.meta(channel_id) == Some(
                crate::tui::state::channels::ChannelMetadata { guild_id, name, guild_name, message_count },
            ),
            forall|id: u64| id != channel_id ==> #[trigger] final(self).channel_state.meta(id)
                == old(self).channel_state.meta(id),
            forall|id: u64| #[trigger] final(self).channel_state.buffer(id) == old(self).channel_state.buffer(id),
            final(self).channel_state.watched_set() == old(self).channel_state.watched_set(),
            final(self).activity_log@ == old(self).activity_log@,
            final(self).same_navigation(&*old(self)),
            final(self).same_settings(&*old(self)),
            final(self).same_browse(&*old(self)),
            final(self).same_bot(&*old(self)),
            final(self).errors_state == old(self).errors_state,
            final(self).db_channel_history@ == old(self).db_channel_history@,
            final(self).pending_watches@ == old(self).pending_watches@,
    {
        self.channel_state.set_channel_info(channel_id, name, guild_id, guild_name, message_count);
    }

    /// History fetched for a channel.
    pub fn on_channel_history(&mut self, channel_id: u64, messages: Vec<DisplayMessage>, time: &str)
        requires
            old(self).wf(),
            messages@.len() <= usize::MAX - crate::tui::state::channels::MAX_MESSAGES_PER_CHANNEL,
        ensures
            final(self).wf(),
            final(self).channel_state.buffer(channel_id) == Some(crate::tui::state::channels::keep_latest(
                messages@ + match old(self).channel_state.buffer(channel_id) {
                    Some(b) => b,
                    None => Seq::<DisplayMessage>::empty(),
                },
            )),
            forall|id: u64| id != channel_id ==> #[trigger] final(self).channel_state.buffer(id)
                == old(self).channel_state.buffer(id),
            !final(self).channel_state.fetching(),
            string_views(final(self).activity_log@) == appended_log(
                string_views(old(self).activity_log@),
                activity_entry(time@, "Loaded "@ + dec(messages@.len()) + " messages for channel"@),
            ),
            final(self).same_navigation(&*old(self)),
            final(self).same_settings(&*old(self)),
            final(self).same_browse(&*old(self)),
            final(self).same_bot(&*old(self)),
            final(self).errors_state == old(self).errors_state,
            final(self).db_channel_history@ == old(self).db_channel_history@,
            final(self).pending_watches@ == old(self).pending_watches@,
    {
        let n = messages.len();
        self.channel_state.set_history(channel_id, messages);
        let mut v: Vec<char> = Vec::new();
        append_str(&mut v, "Loaded ");
        append_decimal(&mut v, n as u64);
        append_str(&mut v, " messages for channel");
        let msg = string_of(v.as_slice());
        self.add_activity(msg.as_str(), time);
    }

    /// The recent errors, received at `now`.
    pub fn on_recent_errors(&mut self, errors: Vec<ErrorInfo>, now: u64)
        ensures
            final(self).errors_state.errors@ == errors@,
            final(self).errors_state.last_refresh == Some(now),
            !final(self).errors_state.refreshing,
            final(self).errors_state.selected_index == old(self).errors_state.selected_index,
            final(self).errors_state.viewing_details == old(self).errors_state.viewing_details,
            final(self).errors_state.details_scroll == old(self).errors_state.details_scroll,
            final(self).channel_state == old(self).channel_state,
            final(self).db_channel_history@ == old(self).db_channel_history@,
            final(self).pending_watches@ == old(self).pending_watches@,
            final(self).activity_log@ == old(self).activity_log@,
            final(self).same_navigation(&*old(self)),
            final(self).same_settings(&*old(self)),
            final(self).same_browse(&*old(self)),
            final(self).same_bot(&*old(self)),
    {
        self.errors_state.set_errors(errors, now);
    }

    /// The states of the features.
    pub fn on_feature_states(&mut self, states: Vec<(String, bool)>, time: &str)
        ensures
            final(self).feature_states@ == states@,
            string_views(final(self).activity_log@) == appended_log(
                string_views(old(self).activity_log@),
                activity_entry(time@, "Loaded "@ + dec(states@.len()) + " feature states"@),
            ),
            final(self).settings_tab == old(self).settings_tab,
            final(self).settings_feature_index == old(self).settings_feature_index,
            final(self).settings_persona_index == old(self).settings_persona_index,
            final(self).settings_guild_index == old(self).settings_guild_index,
            final(self).same_navigation(&*old(self)),
            final(self).same_browse(&*old(self)),
            final(self).same_bot(&*old(self)),
            final(self).same_stores(&*old(self)),
    {
        self.feature_states = states;
        let mut v: Vec<char> = Vec::new();
        append_str(&mut v, "Loaded ");
        append_decimal(&mut v, self.feature_states.len() as u64);
        append_str(&mut v, " feature states");
        let msg = string_of(v.as_slice());
        self.add_activity(msg.as_str(), time);
    }

    /// The channels with stored history: they replace the table, and those
    /// not yet watched are watched and queued for subscription.
    pub fn on_channels_with_history(&mut self, channels: Vec<ChannelHistorySummary>, time: &str)
        requires
            old(self).wf(),
        ensures
            final(self).wf(),
            final(self).db_channel_history@ == history_table(channels@),
            final(self).pending_watches@ == new_watches(
                old(self).channel_state.watched_set(),
                history_ids(channels@),
            ),
            final(self).channel_state.watched_set() == old(self).channel_state.watched_set().union(
                history_ids(channels@).to_set(),
            ),
            forall|id: u64| #[trigger] final(self).channel_state.buffer(id) == if history_ids(channels@).contains(id)
                && old(self).channel_state.buffer(id) is None {
                Some(Seq::<DisplayMessage>::empty())
            } else {
                old(self).channel_state.buffer(id)
            },
            forall|id: u64| #[trigger] final(self).channel_state.meta(id) == old(self).channel_state.meta(id),
            string_views(final(self).activity_log@) == appended_log(
                string_views(old(self).activity_log@),
                activity_entry(time@, "Auto-watching "@ + dec(channels@.len()) + " channels with history"@),
            ),
            final(self).errors_state == old(self).errors_state,
            final(self).same_navigation(&*old(self)),
            final(self).same_settings(&*old(self)),
            final(self).same_browse(&*old(self)),
            final(self).same_bot(&*old(self)),
    {
        let count = channels.len();
        let ghost all = channels@;
        let ghost ids = history_ids(all);
        let ghost watched0 = self.channel_state.watched_set();
        let ghost state0 = self.channel_state;
        let ghost app0 = *self;
        self.db_channel_history = Vec::new();
        self.pending_watches = Vec::new();
        let mut rest = channels;
        let mut i: usize = 0;
        assert(ids.take(0).to_set() =~= Set::<u64>::empty());
        assert(watched0.union(Set::<u64>::empty()) =~= watched0);
        while rest.len() > 0
            invariant
                i + rest@.len() == count,
                count == all.len(),
                ids == history_ids(all),
                rest@ =~= all.skip(i as int),
                state0.wf(),
                watched0 == state0.watched_set(),
                self.channel_state.wf(),
                self.db_channel_history@ == history_table(all.take(i as int)),
                self.pending_watches@ == new_watches(watched0, ids.take(i as int)),
                self.channel_state.watched_set() == watched0.union(ids.take(i as int).to_set()),
                forall|id: u64| #[trigger] self.channel_state.buffer(id) == if ids.take(i as int).contains(id)
                    && state0.buffer(id) is None {
                    Some(Seq::<DisplayMessage>::empty())
                } else {
                    state0.buffer(id)
                },
                forall|id: u64| #[trigger] self.channel_state.meta(id) == state0.meta(id),
                self.errors_state == app0.errors_state,
                self.activity_log@ == app0.activity_log@,
                self.same_navigation(&app0),
                self.same_settings(&app0),
                self.same_browse(&app0),
                self.same_bot(&app0),
            decreases rest@.len(),
        {
            let entry = rest.remove(0);
            let id = entry.channel_id;
            let ghost pre = ids.take(i as int);
            let ghost post = ids.take(i + 1);
            let ghost before = self.channel_state;
            proof {
                assert(entry == all[i as int]);
                assert(rest@ =~= all.skip(i + 1));
                assert(all.take(i + 1).drop_last() =~= all.take(i as int));
                assert(all.take(i + 1).last() == all[i as int]);
                assert(post =~= pre.push(id));
                assert(post.drop_last() =~= pre);
            }
            self.upsert_history(entry);
            let watching = self.channel_state.is_watching(id);
            if !watching {
                proof {
                    lemma_new_watches_watched(watched0, pre, id);
                    assert(!pre.contains(id)) by {
                        if pre.contains(id) {
                            assert(pre.to_set().contains(id));
                        }
                    }
                }
                self.channel_state.watch(id);
                self.pending_watches.push(id);
            }
            proof {
                lemma_new_watches_watched(watched0, pre, id);
                assert forall|x: u64| post.contains(x) <==> (pre.contains(x) || x == id) by {
                    if post.contains(x) {
                        let k = choose|k: int| 0 <= k < post.len() && post[k] == x;
                        if k < i {
                            assert(pre[k] == x);
                        }
                    }
                    if pre.contains(x) {
                        let k = choose|k: int| 0 <= k < pre.len() && pre[k] == x;
                        assert(post[k] == x);
                    }
                    if x == id {
                        assert(post[i as int] == x);
                    }
                }
                assert(self.channel_state.watched_set() =~= watched0.union(post.to_set()));
                assert forall|x: u64| #[trigger] self.channel_state.buffer(x) == if post.contains(x)
                    && state0.buffer(x) is None {
                    Some(Seq::<DisplayMessage>::empty())
                } else {
                    state0.buffer(x)
                } by {
                    if x == id {
                        crate::tui::state::channels::lemma_buffer_bounded(&state0, x);
                        crate::tui::state::channels::lemma_buffer_bounded(&before, x);
                        if !pre.contains(x) {
                            assert(before.buffer(x) == state0.buffer(x));
                        }
                        if watching && !pre.contains(x) {
                            assert(watched0.contains(x));
                        }
                    }
                }
            }
            i = i + 1;
        }
        proof {
            assert(all.take(count as int) =~= all);
            assert(ids.take(count as int) =~= ids);
            lemma_history_table_unique(all);
        }
        let mut v: Vec<char> = Vec::new();
        append_str(&mut v, "Auto-watching ");
        append_decimal(&mut v, count as u64);
        append_str(&mut v, " channels with history");
        let msg = string_of(v.as_slice());
        self.add_activity(msg.as_str(), time);
    }

    fn history_position(&self, id: u64) -> (r: Option<usize>)
        ensures
            match r {
                Some(k) => k as int == entry_index(self.db_channel_history@, id) && k < self.db_channel_history@.len(),
                None => entry_index(self.db_channel_history@, id) < 0,
            },
    {
        let ghost r = self.db_channel_history@;
        let mut j: usize = self.db_channel_history.len();
        assert(r.take(j as int) =~= r);
        while j > 0
            invariant
                j <= r.len(),
                self.db_channel_history@ == r,
                entry_index(r, id) == entry_index(r.take(j as int), id),
            decreases j,
        {
            assert(r.take(j as int).last() == r[j - 1]);
            assert(r.take(j as int).drop_last() =~= r.take(j - 1));
            if self.db_channel_history[j - 1].channel_id == id {
                return Some(j - 1);
            }
            j = j - 1;
        }
        None
    }

    fn upsert_history(&mut self, entry: ChannelHistorySummary)
        ensures
            final(self).db_channel_history@ == upsert(old(self).db_channel_history@, entry),
            final(self).channel_state == old(self).channel_state,
            final(self).pending_watches@ == old(self).pending_watches@,
            final(self).errors_state == old(self).errors_state,
            final(self).activity_log@ == old(self).activity_log@,
            final(self).same_navigation(&*old(self)),
            final(self).same_settings(&*old(self)),
            final(self).same_browse(&*old(self)),
            final(self).same_bot(&*old(self)),
    {
        match self.history_position(entry.channel_id) {
            Some(k) => {
                self.db_channel_history.set(k, entry);
            },
            None => {
                self.db_channel_history.push(entry);
            },
        }
    }

    /// Set connection status; losing the dashboard connection also means the
    /// bot is not known to be connected.
    pub fn set_connected(&mut self, connected: bool)
        ensures
            final(self).connected == connected,
            final(self).bot_connected == (connected && old(self).bot_connected),
            final(self).guilds@ == old(self).guilds@,
            final(self).bot_username == old(self).bot_username,
            final(self).bot_user_id == old(self).bot_user_id,
            final(self).uptime_seconds == old(self).uptime_seconds,
            final(self).active_sessions == old(self).active_sessions,
            final(self).last_heartbeat == old(self).last_heartbeat,
            final(self).error_message == old(self).error_message,
            final(self).status_message == old(self).status_message,
            final(self).activity_log@ == old(self).activity_log@,
            final(self).same_navigation(&*old(self)),
            final(self).same_settings(&*old(self)),
            final(self).same_browse(&*old(self)),
            final(self).same_stores(&*old(self)),
    {
        self.connected = connected;
        if !connected {
            self.bot_connected = false;
        }
    }

    /// Clear the error line.
    pub fn clear_error(&mut self)
        ensures
            final(self).error_message is None,
            final(self).status_message == old(self).status_message,
            final(self).same_navigation(&*old(self)),
            final(self).same_settings(&*old(self)),
            final(self).same_browse(&*old(self)),
            final(self).same_stores(&*old(self)),
            final(self).activity_log@ == old(self).activity_log@,
    {
        self.error_message = None;
    }

    /// Clear the status line.
    pub fn clear_status(&mut self)
        ensures
            final(self).status_message is None,
            final(self).error_message == old(self).error_message,
            final(self).same_navigation(&*old(self)),
            final(self).same_settings(&*old(self)),
            final(self).same_browse(&*old(self)),
            final(self).same_stores(&*old(self)),
            final(self).activity_log@ == old(self).activity_log@,
    {
        self.status_message = None;
    }

    /// The guild under the selection, if any.
    pub fn selected_guild(&self) -> (r: Option<&GuildInfo>)
        ensures
            self.selected_index < self.guilds@.len() ==> r == Some(&self.guilds@[self.selected_index as int]),
            self.selected_index >= self.guilds@.len() ==> r is None,
    {
        if self.selected_index < self.guilds.len() {
            Some(&self.guilds[self.selected_index])
        } else {
            None
        }
    }

    /// Move the selection up, stopping at the top.
    pub fn select_previous(&mut self)
        ensures
            final(self).selected_index == if old(self).selected_index > 0 {
                (old(self).selected_index - 1) as usize
            } else {
                0
            },
            final(self).current_screen == old(self).current_screen,
            final(self).input_mode == old(self).input_mode,
            final(self).input_buffer@ == old(self).input_buffer@,
    {
        if self.selected_index > 0 {
            self.selected_index -= 1;
        }
    }

    /// Move the selection down, stopping at the last of `max` items.
    pub fn select_next(&mut self, max: usize)
        ensures
            final(self).selected_index == if old(self).selected_index + 1 < max {
                (old(self).selected_index + 1) as usize
            } else {
                old(self).selected_index
            },
            final(self).current_screen == old(self).current_screen,
            final(self).input_mode == old(self).input_mode,
            final(self).input_buffer@ == old(self).input_buffer@,
    {
        if self.selected_index < max.saturating_sub(1) {
            self.selected_index += 1;
        }
    }

    /// Start typing a channel id to watch.
    pub fn start_editing(&mut self)
        ensures
            final(self).input_mode == InputMode::Editing,
            final(self).input_purpose == InputPurpose::AddChannel,
            final(self).input_buffer@ == old(self).input_buffer@,
            final(self).current_screen == old(self).current_screen,
            final(self).selected_index == old(self).selected_index,
    {
        self.input_mode = InputMode::Editing;
        self.input_purpose = InputPurpose::AddChannel;
    }

    /// Start typing a message to send.
    pub fn start_message_input(&mut self)
        ensures
            final(self).input_mode == InputMode::Editing,
            final(self).input_purpose == InputPurpose::SendMessage,
            final(self).input_buffer@ == old(self).input_buffer@,
            final(self).current_screen == old(self).current_screen,
            final(self).selected_index == old(self).selected_index,
    {
        self.input_mode = InputMode::Editing;
        self.input_purpose = InputPurpose::SendMessage;
    }

    /// Stop typing.
    pub fn stop_editing(&mut self)
        ensures
            final(self).input_mode == InputMode::Normal,
            final(self).input_purpose == old(self).input_purpose,
            final(self).input_buffer@ == old(self).input_buffer@,
            final(self).current_screen == old(self).current_screen,
            final(self).selected_index == old(self).selected_index,
    {
        self.input_mode = InputMode::Normal;
    }

    /// Type a character.
    pub fn input_char(&mut self, c: char)
        ensures
            final(self).input_buffer@ == old(self).input_buffer@.push(c),
            final(self).input_mode == old(self).input_mode,
            final(self).input_purpose == old(self).input_purpose,
            final(self).current_screen == old(self).current_screen,
            final(self).selected_index == old(self).selected_index,
    {
        let mut v = chars_of(self.input_buffer.as_str());
        v.push(c);
        self.input_buffer = string_of(v.as_slice());
    }

    /// Erase the last character typed, if any.
    pub fn input_backspace(&mut self)
        ensures
            final(self).input_buffer@ == if old(self).input_buffer@.len() > 0 {
                old(self).input_buffer@.drop_last()
            } else {
                old(self).input_buffer@
            },
            final(self).input_mode == old(self).input_mode,
            final(self).input_purpose == old(self).input_purpose,
            final(self).current_screen == old(self).current_screen,
            final(self).selected_index == old(self).selected_index,
    {
        let mut v = chars_of(self.input_buffer.as_str());
        if v.len() > 0 {
            let _ = v.pop();
            assert(v@ =~= old(self).input_buffer@.drop_last());
        }
        self.input_buffer = string_of(v.as_slice());
    }

    /// Clear the input.
    pub fn input_clear(&mut self)
        ensures
            final(self).input_buffer@.len() == 0,
            final(self).input_mode == old(self).input_mode,
            final(self).input_purpose == old(self).input_purpose,
            final(self).current_screen == old(self).current_screen,
            final(self).selected_index == old(self).selected_index,
    {
        self.input_buffer = String::new();
    }

    /// Take what was typed, leaving the input empty.
    pub fn take_input(&mut self) -> (s: String)
        ensures
            s@ == old(self).input_buffer@,
            final(self).input_buffer@.len() == 0,
            final(self).input_mode == old(self).input_mode,
            final(self).input_purpose == old(self).input_purpose,
            final(self).current_screen == old(self).current_screen,
            final(self).selected_index == old(self).selected_index,
    {
        let mut s = String::new();
        std::mem::swap(&mut s, &mut self.input_buffer);
        s
    }

    /// Move to the previous settings tab.
    pub fn settings_tab_left(&mut self)
        ensures
            final(self).settings_tab == old(self).settings_tab.left(),
            final(self).settings_feature_index == old(self).settings_feature_index,
            final(self).settings_persona_index == old(self).settings_persona_index,
            final(self).settings_guild_index == old(self).settings_guild_index,
    {
        self.settings_tab = match self.settings_tab {
            SettingsTab::Features => SettingsTab::Guild,
            SettingsTab::Personas => SettingsTab::Features,
            SettingsTab::Guild => SettingsTab::Personas,
        };
    }

    /// Move to the next settings tab.
    pub fn settings_tab_right(&mut self)
        ensures
            final(self).settings_tab == old(self).settings_tab.right(),
            final(self).settings_feature_index == old(self).settings_feature_index,
            final(self).settings_persona_index == old(self).settings_persona_index,
            final(self).settings_guild_index == old(self).settings_guild_index,
    {
        self.settings_tab = match self.settings_tab {
            SettingsTab::Features => SettingsTab::Personas,
            SettingsTab::Personas => SettingsTab::Guild,
            SettingsTab::Guild => SettingsTab::Features,
        };
    }

    /// The selection of the current settings tab.
    pub open spec fn settings_index(&self) -> usize {
        match self.settings_tab {
            SettingsTab::Features => self.settings_feature_index,
            SettingsTab::Personas => self.settings_persona_index,
            SettingsTab::Guild => self.settings_guild_index,
        }
    }

    /// The current settings tab's selection index.
    pub fn settings_current_index(&self) -> (i: usize)
        ensures
            i == self.settings_index(),
    {
        match self.settings_tab {
            SettingsTab::Features => self.settings_feature_index,
            SettingsTab::Personas => self.settings_persona_index,
            SettingsTab::Guild => self.settings_guild_index,
        }
    }

    /// The current settings tab's selection index, to change in place.
    pub fn settings_current_index_mut(&mut self) -> (r: &mut usize)
        ensures
            *r == old(self).settings_index(),
            *final(self) == (match old(self).settings_tab {
                SettingsTab::Features => App { settings_feature_index: *final(r), ..*old(self) },
                SettingsTab::Personas => App { settings_persona_index: *final(r), ..*old(self) },
                SettingsTab::Guild => App { settings_guild_index: *final(r), ..*old(self) },
            }),
    {
        match self.settings_tab {
            SettingsTab::Features => &mut self.settings_feature_index,
            SettingsTab::Personas => &mut self.settings_persona_index,
            SettingsTab::Guild => &mut self.settings_guild_index,
        }
    }

    /// How many items the current settings tab lists, given the number of
    /// features and of personas.
    pub fn settings_list_len(&self, feature_count: usize, persona_count: usize) -> (n: usize)
        ensures
            n == match self.settings_tab {
                SettingsTab::Features => feature_count,
                SettingsTab::Personas => persona_count,
                SettingsTab::Guild => GUILD_SETTINGS_COUNT,
            },
    {
        match self.settings_tab {
            SettingsTab::Features => feature_count,
            SettingsTab::Personas => persona_count,
            SettingsTab::Guild => GUILD_SETTINGS_COUNT,
        }
    }

    fn feature_index(&self, feature_id: &str) -> (r: Option<usize>)
        ensures
            match r {
                Some(i) => i < self.feature_states@.len() && self.feature_states@[i as int].0@ == feature_id@
                    && forall|k: int| 0 <= k < i ==> self.feature_states@[k].0@ != feature_id@,
                None => forall|k: int| 0 <= k < self.feature_states@.len() ==> self.feature_states@[k].0@
                    != feature_id@,
            },
    {
        let mut i: usize = 0;
        while i < self.feature_states.len()
            invariant
                i <= self.feature_states@.len(),
                forall|k: int| 0 <= k < i ==> self.feature_states@[k].0@ != feature_id@,
            decreases self.feature_states@.len() - i,
        {
            if str_eq(self.feature_states[i].0.as_str(), feature_id) {
                return Some(i);
            }
            i = i + 1;
        }
        None
    }

    /// Whether a feature is enabled: its recorded state, on when none is.
    pub fn is_feature_enabled(&self, feature_id: &str) -> (b: bool)
        ensures
            b == match feature_state(self.feature_states@, feature_id@) {
                Some(s) => s,
                None => true,
            },
    {
        let r = self.feature_index(feature_id);
        proof {
            lemma_feature_state_index(self.feature_states@, feature_id@, r);
        }
        match r {
            Some(i) => self.feature_states[i].1,
            None => true,
        }
    }

    /// Flip a feature's state locally and return the new state.
    pub fn toggle_feature_state(&mut self, feature_id: &str) -> (new_state: bool)
        ensures
            new_state == !match feature_state(old(self).feature_states@, feature_id@) {
                Some(s) => s,
                None => true,
            },
            feature_state(final(self).feature_states@, feature_id@) == Some(new_state),
            forall|id: Seq<char>| id != feature_id@ ==> #[trigger] feature_state(final(self).feature_states@, id)
                == feature_state(old(self).feature_states@, id),
            final(self).settings_tab == old(self).settings_tab,
            final(self).settings_feature_index == old(self).settings_feature_index,
            final(self).same_navigation(&*old(self)),
            final(self).same_browse(&*old(self)),
            final(self).same_bot(&*old(self)),
            final(self).same_stores(&*old(self)),
            final(self).activity_log@ == old(self).activity_log@,
    {
        let current = self.is_feature_enabled(feature_id);
        let new_state = !current;
        let ghost before = self.feature_states@;
        let r = self.feature_index(feature_id);
        proof {
            lemma_feature_state_index(before, feature_id@, r);
        }
        match r {
            Some(i) => {
                let name = self.feature_states[i].0.clone();
                self.feature_states.set(i, (name, new_state));
                proof {
                    assert forall|id: Seq<char>| #[trigger] feature_state(self.feature_states@, id) == if id
                        == feature_id@ {
                        Some(new_state)
                    } else {
                        feature_state(before, id)
                    } by {
                        lemma_feature_state_update(before, i as int, new_state, id);
                    }
                }
            },
            None => {
                self.feature_states.push((feature_id.to_owned(), new_state));
                proof {
                    assert forall|id: Seq<char>| #[trigger] feature_state(self.feature_states@, id) == if id
                        == feature_id@ {
                        Some(new_state)
                    } else {
                        feature_state(before, id)
                    } by {
                        lemma_feature_state_push(before, self.feature_states@.last(), id);
                        assert(self.feature_states@ =~= before.push(self.feature_states@.last()));
                    }
                }
            },
        }
        new_state
    }

    /// Enter browse mode at the first guild, guild pane active.
    pub fn start_browse_mode(&mut self)
        ensures
            final(self).browse_mode,
            final(self).browse_guild_index == 0,
            final(self).browse_channel_index == 0,
            !final(self).browse_channel_pane_active,
            final(self).same_navigation(&*old(self)),
            final(self).same_settings(&*old(self)),
            final(self).same_bot(&*old(self)),
            final(self).same_stores(&*old(self)),
    {
        self.browse_mode = true;
        self.browse_guild_index = 0;
        self.browse_channel_index = 0;
        self.browse_channel_pane_active = false;
    }

    /// Leave browse mode.
    pub fn stop_browse_mode(&mut self)
        ensures
            !final(self).browse_mode,
            final(self).browse_guild_index == old(self).browse_guild_index,
            final(self).browse_channel_index == old(self).browse_channel_index,
            final(self).browse_channel_pane_active == old(self).browse_channel_pane_active,
            final(self).same_navigation(&*old(self)),
            final(self).same_settings(&*old(self)),
            final(self).same_bot(&*old(self)),
            final(self).same_stores(&*old(self)),
    {
        self.browse_mode = false;
    }

    /// The guild selected in browse mode.
    pub fn browse_selected_guild(&self) -> (r: Option<&GuildInfo>)
        ensures
            self.browse_guild_index < self.guilds@.len() ==> r == Some(&self.guilds@[self.browse_guild_index as int]),
            self.browse_guild_index >= self.guilds@.len() ==> r is None,
    {
        if self.browse_guild_index < self.guilds.len() {
            Some(&self.guilds[self.browse_guild_index])
        } else {
            None
        }
    }

    /// The text channels of the guild selected in browse mode (from the
    /// bot's cache), in order.
    pub open spec fn browse_channels(&self) -> Seq<ChannelInfo> {
        if self.browse_guild_index < self.guilds@.len() {
            text_channels(self.guilds@[self.browse_guild_index as int].channels@)
        } else {
            Seq::empty()
        }
    }

    pub fn browse_available_channels(&self) -> (v: Vec<&ChannelInfo>)
        ensures
            v@.len() == self.browse_channels().len(),
            forall|k: int| 0 <= k < v@.len() ==> *v@[k] == self.browse_channels()[k],
    {
        let mut v: Vec<&ChannelInfo> = Vec::new();
        if self.browse_guild_index < self.guilds.len() {
            let chans = &self.guilds[self.browse_guild_index].channels;
            let mut i: usize = 0;
            while i < chans.len()
                invariant
                    i <= chans@.len(),
                    v@.len() == text_channels(chans@.take(i as int)).len(),
                    forall|k: int| 0 <= k < v@.len() ==> *v@[k] == text_channels(chans@.take(i as int))[k],
                decreases chans@.len() - i,
            {
                let c = &chans[i];
                assert(chans@.take(i + 1).drop_last() =~= chans@.take(i as int));
                assert(chans@.take(i + 1).last() == chans@[i as int]);
                match c.channel_type {
                    ChannelType::Text | ChannelType::News | ChannelType::Thread | ChannelType::Forum => {
                        v.push(c);
                    },
                    _ => {},
                }
                i = i + 1;
            }
            assert(chans@.take(chans@.len() as int) =~= chans@);
        }
        v
    }

    /// The browse list before sorting: the cached text channels of the
    /// selected guild with their stored counts, then the guild's channels
    /// known only from stored history.
    pub open spec fn browse_list(&self) -> Seq<(u64, Seq<char>, Option<u64>)> {
        let discord = self.browse_channels();
        let db = self.db_channel_history@;
        let extra = if self.browse_guild_index < self.guilds@.len() {
            db_only(db, self.guilds@[self.browse_guild_index as int].id, discord)
        } else {
            Seq::empty()
        };
        discord.map_values(|c: ChannelInfo| (c.id, c.name@, history_count(db, c.id))) + extra.map_values(
            |h: ChannelHistorySummary| stored_entry(h),
        )
    }

    /// How many channels browse mode lists for the selected guild: the
    /// cached text channels and the guild's channels known only from
    /// stored history.
    pub fn browse_merged_channel_count(&self) -> (n: usize)
        ensures
            n == self.browse_list().len(),
    {
        let merged = self.browse_merged_entries();
        merged.len()
    }

    fn channel_in(chans: &Vec<&ChannelInfo>, id: u64) -> (b: bool)
        ensures
            b == exists|k: int| 0 <= k < chans@.len() && chans@[k].id == id,
    {
        let mut i: usize = 0;
        while i < chans.len()
            invariant
                i <= chans@.len(),
                forall|k: int| 0 <= k < i ==> chans@[k].id != id,
            decreases chans@.len() - i,
        {
            if chans[i].id == id {
                return true;
            }
            i = i + 1;
        }
        false
    }

    fn browse_merged_entries(&self) -> (merged: Vec<BrowseEntry>)
        ensures
            entry_views(merged@) == self.browse_list(),
    {
        let discord = self.browse_available_channels();
        let ghost d = self.browse_channels();
        let ghost db0 = self.db_channel_history@;
        let ghost dpart = d.map_values(|c: ChannelInfo| (c.id, c.name@, history_count(db0, c.id)));
        let mut merged: Vec<BrowseEntry> = Vec::new();
        let mut i: usize = 0;
        while i < discord.len()
            invariant
                i <= discord@.len(),
                discord@.len() == d.len(),
                db0 == self.db_channel_history@,
                dpart == d.map_values(|c: ChannelInfo| (c.id, c.name@, history_count(db0, c.id))),
                forall|k: int| 0 <= k < discord@.len() ==> *discord@[k] == d[k],
                entry_views(merged@) == dpart.take(i as int),
            decreases discord@.len() - i,
        {
            let c = discord[i];
            let count = match self.history_position(c.id) {
                Some(k) => Some(self.db_channel_history[k].message_count),
                None => None,
            };
            let name = string_of(chars_of(c.name.as_str()).as_slice());
            let ghost before = entry_views(merged@);
            merged.push(BrowseEntry { id: c.id, name, message_count: count });
            assert(entry_views(merged@) =~= before.push((c.id, c.name@, history_count(db0, c.id))));
            assert(dpart.take(i + 1) =~= dpart.take(i as int).push(dpart[i as int]));
            i = i + 1;
        }
        assert(dpart.take(d.len() as int) =~= dpart);
        if self.browse_guild_index < self.guilds.len() {
            let gid = self.guilds[self.browse_guild_index].id;
            let db = &self.db_channel_history;
            let mut j: usize = 0;
            assert(db@.take(0) =~= Seq::<ChannelHistorySummary>::empty());
            assert(db_only(db@.take(0), gid, d).map_values(|h: ChannelHistorySummary| stored_entry(h)) =~= Seq::<(u64, Seq<char>, Option<u64>)>::empty());
            assert(dpart + db_only(db@.take(0), gid, d).map_values(|h: ChannelHistorySummary| stored_entry(h)) =~= dpart);
            while j < db.len()
                invariant
                    j <= db@.len(),
                    discord@.len() == d.len(),
                    forall|k: int| 0 <= k < discord@.len() ==> *discord@[k] == d[k],
                    entry_views(merged@) == dpart + db_only(db@.take(j as int), gid, d).map_values(|h: ChannelHistorySummary| stored_entry(h)),
                decreases db@.len() - j,
            {
                let e = &db[j];
                proof {
                    assert(db@.take(j + 1).drop_last() =~= db@.take(j as int));
                    assert(db@.take(j + 1).last() == db@[j as int]);
                }
                let known = Self::channel_in(&discord, e.channel_id);
                proof {
                    assert(known == exists|k: int| 0 <= k < d.len() && d[k].id == e.channel_id) by {
                        if known {
                            let k = choose|k: int| 0 <= k < discord@.len() && discord@[k].id == e.channel_id;
                            assert(d[k].id == e.channel_id);
                        }
                        if exists|k: int| 0 <= k < d.len() && d[k].id == e.channel_id {
                            let k = choose|k: int| 0 <= k < d.len() && d[k].id == e.channel_id;
                            assert(discord@[k].id == e.channel_id);
                        }
                    }
                }
                if e.guild_id == Some(gid) && !known {
                    let name = match &e.channel_name {
                        Some(n) => string_of(chars_of(n.as_str()).as_slice()),
                        None => {
                            let mut v: Vec<char> = Vec::new();
                            append_decimal(&mut v, e.channel_id);
                            string_of(v.as_slice())
                        },
                    };
                    assert(name@ == stored_name(*e));
                    let ghost before = entry_views(merged@);
                    merged.push(BrowseEntry { id: e.channel_id, name, message_count: Some(e.message_count) });
                    proof {
                        assert(merged@.last()@ == stored_entry(*e));
                        let prev = db_only(db@.take(j as int), gid, d);
                        assert(db_only(db@.take(j + 1), gid, d) == prev.push(*e));
                        assert(prev.push(*e).map_values(|h: ChannelHistorySummary| stored_entry(h)) =~= prev.map_values(|h: ChannelHistorySummary| stored_entry(h)).push(stored_entry(*e)));
                        assert(entry_views(merged@) =~= before.push(stored_entry(*e)));
                    }
                } else {
                    proof {
                        assert(db_only(db@.take(j + 1), gid, d) == db_only(db@.take(j as int), gid, d));
                    }
                }
                j = j + 1;
            }
            assert(db@.take(db@.len() as int) =~= db@);
        } else {
            assert(dpart + Seq::<ChannelHistorySummary>::empty().map_values(
                |h: ChannelHistorySummary| stored_entry(h),
            ) =~= dpart);
        }
        merged
    }

    /// The channel selected in browse mode, by its place in the sorted
    /// browse list: its id and name; none without a selected guild.
    pub fn browse_selected_channel_info(&self) -> (r: Option<(u64, String)>)
        ensures
            self.browse_guild_index >= self.guilds@.len() ==> r is None,
            self.browse_guild_index < self.guilds@.len() ==> match r {
                Some((id, name)) => self.browse_channel_index < self.browse_list().len() && id == browse_sorted(
                    self.browse_list(),
                )[self.browse_channel_index as int].0 && name@ == browse_sorted(
                    self.browse_list(),
                )[self.browse_channel_index as int].1,
                None => self.browse_channel_index >= self.browse_list().len(),
            },
    {
        if self.browse_guild_index >= self.guilds.len() {
            return None;
        }
        let merged = self.browse_merged_entries();
        let sorted = sort_browse(merged);
        proof {
            lemma_browse_sorted_len(self.browse_list());
        }
        if self.browse_channel_index < sorted.len() {
            let e = &sorted[self.browse_channel_index];
            assert(entry_views(sorted@)[self.browse_channel_index as int] == e@);
            let name = string_of(chars_of(e.name.as_str()).as_slice());
            Some((e.id, name))
        } else {
            None
        }
    }

    /// Navigate up in the active browse pane; changing guild goes back to its
    /// first channel.
    pub fn browse_up(&mut self)
        ensures
            old(self).browse_channel_pane_active ==> final(self).browse_channel_index == if old(self).browse_channel_index
                > 0 {
                (old(self).browse_channel_index - 1) as usize
            } else {
                0
            } && final(self).browse_guild_index == old(self).browse_guild_index,
            !old(self).browse_channel_pane_active ==> if old(self).browse_guild_index > 0 {
                final(self).browse_guild_index == old(self).browse_guild_index - 1 && final(self).browse_channel_index == 0
            } else {
                final(self).browse_guild_index == 0 && final(self).browse_channel_index == old(self).browse_channel_index
            },
            final(self).browse_mode == old(self).browse_mode,
            final(self).browse_channel_pane_active == old(self).browse_channel_pane_active,
            final(self).same_navigation(&*old(self)),
            final(self).same_settings(&*old(self)),
            final(self).same_bot(&*old(self)),
            final(self).same_stores(&*old(self)),
    {
        if self.browse_channel_pane_active {
            if self.browse_channel_index > 0 {
                self.browse_channel_index -= 1;
            }
        } else if self.browse_guild_index > 0 {
            self.browse_guild_index -= 1;
            self.browse_channel_index = 0;
        }
    }

    /// Navigate down in the active browse pane, stopping at the last item;
    /// changing guild goes back to its first channel.
    pub fn browse_down(&mut self)
        ensures
            old(self).browse_channel_pane_active ==> {
                let max = old(self).browse_list().len();
                &&& final(self).browse_channel_index == if old(self).browse_channel_index + 1 < max {
                    (old(self).browse_channel_index + 1) as usize
                } else {
                    old(self).browse_channel_index
                }
                &&& final(self).browse_guild_index == old(self).browse_guild_index
            },
            !old(self).browse_channel_pane_active ==> if old(self).browse_guild_index + 1 < old(self).guilds@.len() {
                final(self).browse_guild_index == old(self).browse_guild_index + 1 && final(self).browse_channel_index == 0
            } else {
                final(self).browse_guild_index == old(self).browse_guild_index && final(self).browse_channel_index
                    == old(self).browse_channel_index
            },
            final(self).browse_mode == old(self).browse_mode,
            final(self).browse_channel_pane_active == old(self).browse_channel_pane_active,
            final(self).same_navigation(&*old(self)),
            final(self).same_settings(&*old(self)),
            final(self).same_bot(&*old(self)),
            final(self).same_stores(&*old(self)),
    {
        if self.browse_channel_pane_active {
            let max = self.browse_merged_channel_count();
            if self.browse_channel_index < max.saturating_sub(1) {
                self.browse_channel_index += 1;
            }
        } else {
            let max = self.guilds.len();
            if self.browse_guild_index < max.saturating_sub(1) {
                self.browse_guild_index += 1;
                self.browse_channel_index = 0;
            }
        }
    }

    /// The cached text channel selected in browse mode.
    pub fn browse_selected_channel(&self) -> (r: Option<&ChannelInfo>)
        ensures
            self.browse_channel_index < self.browse_channels().len() ==> (r matches Some(c) && *c
                == self.browse_channels()[self.browse_channel_index as int]),
            self.browse_channel_index >= self.browse_channels().len() ==> r is None,
    {
        let channels = self.browse_available_channels();
        if self.browse_channel_index < channels.len() {
            Some(channels[self.browse_channel_index])
        } else {
            None
        }
    }

    /// Switch to the guild pane in browse mode.
    pub fn browse_pane_left(&mut self)
        ensures
            !final(self).browse_channel_pane_active,
            final(self).browse_mode == old(self).browse_mode,
            final(self).browse_guild_index == old(self).browse_guild_index,
            final(self).browse_channel_index == old(self).browse_channel_index,
    {
        self.browse_channel_pane_active = false;
    }

    /// Switch to the channel pane in browse mode, if there are guilds.
    pub fn browse_pane_right(&mut self)
        ensures
            final(self).browse_channel_pane_active == (old(self).browse_channel_pane_active || old(self).guilds@.len() > 0),
            final(self).browse_mode == old(self).browse_mode,
            final(self).browse_guild_index == old(self).browse_guild_index,
            final(self).browse_channel_index == old(self).browse_channel_index,
    {
        if self.guilds.len() > 0 {
            self.browse_channel_pane_active = true;
        }
    }
}

proof fn lemma_feature_state_index(states: Seq<(String, bool)>, id: Seq<char>, r: Option<usize>)
    requires
        match r {
            Some(i) => i < states.len() && states[i as int].0@ == id && forall|k: int| 0 <= k < i ==> states[k].0@ != id,
            None => forall|k: int| 0 <= k < states.len() ==> states[k].0@ != id,
        },
    ensures
        feature_state(states, id) == match r {
            Some(i) => Some(states[i as int].1),
            None => None::<bool>,
        },
    decreases states.len(),
{
    if states.len() > 0 && states[0].0@ != id {
        let r2: Option<usize> = match r {
            Some(i) => Some((i - 1) as usize),
            None => None,
        };
        assert forall|k: int| 0 <= k < states.drop_first().len() implies (match r {
            Some(i) => k < i - 1,
            None => true,
        }) ==> states.drop_first()[k].0@ != id by {
            assert(states.drop_first()[k] == states[k + 1]);
        }
        match r {
            Some(i) => {
                assert(i > 0);
                assert(states.drop_first()[i - 1] == states[i as int]);
            },
            None => {},
        }
        lemma_feature_state_index(states.drop_first(), id, r2);
    }
}

proof fn lemma_feature_state_update(states: Seq<(String, bool)>, i: int, v: bool, other: Seq<char>)
    requires
        0 <= i < states.len(),
        forall|k: int| 0 <= k < i ==> states[k].0@ != states[i].0@,
    ensures
        feature_state(states.update(i, (states[i].0, v)), other) == if other == states[i].0@ {
            Some(v)
        } else {
            feature_state(states, other)
        },
    decreases states.len(),
{
    let u = states.update(i, (states[i].0, v));
    if i > 0 {
        assert(u.drop_first() =~= states.drop_first().update(i - 1, (states[i].0, v)));
        assert(states.drop_first()[i - 1] == states[i]);
        assert forall|k: int| 0 <= k < i - 1 implies (#[trigger] states.drop_first()[k]).0@ != states.drop_first()[i - 1].0@ by {
            assert(states.drop_first()[k] == states[k + 1]);
        }
        lemma_feature_state_update(states.drop_first(), i - 1, v, other);
        assert(u[0] == states[0]);
        assert(states[0].0@ != states[i].0@);
    } else {
        assert(u.drop_first() =~= states.drop_first());
    }
}

proof fn lemma_feature_state_push(states: Seq<(String, bool)>, p: (String, bool), other: Seq<char>)
    ensures
        feature_state(states.push(p), other) == match feature_state(states, other) {
            Some(x) => Some(x),
            None => if p.0@ == other {
                Some(p.1)
            } else {
                None
            },
        },
    decreases states.len(),
{
    let q = states.push(p);
    if states.len() > 0 {
        assert(q.drop_first() =~= states.drop_first().push(p));
        assert(q[0] == states[0]);
        lemma_feature_state_push(states.drop_first(), p, other);
        if states[0].0@ != other {
            assert(feature_state(q, other) == feature_state(q.drop_first(), other));
            assert(feature_state(states, other) == feature_state(states.drop_first(), other));
        }
    } else {
        assert(q.drop_first() =~= Seq::<(String, bool)>::empty());
        assert(q[0] == p);
        assert(feature_state(q.drop_first(), other) is None);
    }
}

} // verus!

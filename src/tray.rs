use vstd::prelude::*;

use crate::ascii_art::{DUMMY_CODE, ERROR_CODE, PENDING_CODE};
use crate::logitech::{
    device_menu, dummy_name, is_dummy, lemma_device_menu_unique, same_text, DeviceInfo,
};

verus! {

/// Refresh interval, in milliseconds, used when none or an unreadable one is given.
pub const DEFAULT_UPDATE_FREQUENCY: u64 = 60000;

/// Whether `c` is an ASCII decimal digit.
pub open spec fn is_digit(c: char) -> bool {
    '0' <= c && c <= '9'
}

/// The value of the decimal digits `s`, most significant first.
pub open spec fn digits_value(s: Seq<char>) -> nat
    decreases s.len(),
{
    if s.len() == 0 {
        0
    } else {
        digits_value(s.drop_last()) * 10 + (s.last() as nat - '0' as nat) as nat
    }
}

/// The digits of an unsigned decimal literal: everything after an optional
/// leading `+`.
pub open spec fn unsigned_body(s: Seq<char>) -> Seq<char> {
    if s.len() > 0 && s[0] == '+' {
        s.drop_first()
    } else {
        s
    }
}

/// The `u64` that `s` spells in decimal: an optional `+`, then one or more
/// digits, with a value that fits.
pub open spec fn parsed_u64(s: Seq<char>) -> Option<u64> {
    let body = unsigned_body(s);
    if body.len() > 0 && (forall|i: int| 0 <= i < body.len() ==> is_digit(#[trigger] body[i]))
        && digits_value(body) <= u64::MAX {
        Some(digits_value(body) as u64)
    } else {
        None
    }
}

/// The refresh interval that the optional argument `arg` asks for.
pub open spec fn frequency_of(arg: Option<Seq<char>>) -> u64 {
    match arg {
        Some(s) => match parsed_u64(s) {
            Some(v) => v,
            None => DEFAULT_UPDATE_FREQUENCY,
        },
        None => DEFAULT_UPDATE_FREQUENCY,
    }
}

proof fn lemma_digits_value_grows(s: Seq<char>, i: int)
    requires
        0 <= i <= s.len(),
    ensures
        digits_value(s.take(i)) <= digits_value(s),
    decreases s.len() - i,
{
    if i < s.len() {
        lemma_digits_value_grows(s, i + 1);
        assert(s.take(i + 1).drop_last() =~= s.take(i));
    } else {
        assert(s.take(i) =~= s);
    }
}

/// Reads a `u64` written in decimal, as `str::parse` does.
pub fn parse_u64(s: &str) -> (r: Option<u64>)
    ensures
        r == parsed_u64(s@),
{
    let n = s.unicode_len();
    let start: usize = if n > 0 && s.get_char(0) == '+' { 1 } else { 0 };
    let ghost body = unsigned_body(s@);
    assert(body =~= s@.subrange(start as int, n as int));
    if start >= n {
        return None;
    }
    let mut value: u64 = 0;
    let mut i: usize = start;
    while i < n
        invariant
            start <= i <= n == s@.len(),
            body == s@.subrange(start as int, n as int),
            body == unsigned_body(s@),
            forall|k: int| 0 <= k < i - start ==> is_digit(#[trigger] body[k]),
            value as nat == digits_value(body.take(i - start)),
        decreases n - i,
    {
        let c = s.get_char(i);
        assert(c == body[i - start]);
        if !('0' <= c && c <= '9') {
            assert(!is_digit(body[i - start]));
            assert(!(forall|k: int| 0 <= k < body.len() ==> is_digit(#[trigger] body[k])));
            return None;
        }
        let d = (c as u32 - '0' as u32) as u64;
        assert(body.take(i - start + 1).drop_last() =~= body.take(i - start));
        if value > (u64::MAX - d) / 10 {
            proof {
                lemma_digits_value_grows(body, i - start + 1);
                let ds = body.take(i - start + 1);
                assert(ds.last() == c);
                assert(value * 10 + d > u64::MAX) by (nonlinear_arith)
                    requires
                        value > (u64::MAX - d) / 10,
                        d <= 9,
                ;
            }
            return None;
        }
        value = value * 10 + d;
        i += 1;
    }
    assert(body.take(n - start) =~= body);
    Some(value)
}

/// The refresh interval for the optional argument `arg`: its decimal value,
/// or `DEFAULT_UPDATE_FREQUENCY` where it is absent or not a `u64`.
pub fn update_frequency_from(arg: &Option<String>) -> (r: u64)
    ensures
        r == frequency_of(option_view(*arg)),
{
    match arg {
        Some(s) => match parse_u64(s.as_str()) {
            Some(v) => v,
            None => DEFAULT_UPDATE_FREQUENCY,
        },
        None => DEFAULT_UPDATE_FREQUENCY,
    }
}

/// The text of an optional string.
pub open spec fn option_view(o: Option<String>) -> Option<Seq<char>> {
    match o {
        Some(s) => Some(s@),
        None => None,
    }
}

/// The menu order of the display names `names`: a debug device at the end,
/// the place of the default selection, moves to the front.
pub open spec fn menu_order(names: Seq<Seq<char>>) -> Seq<Seq<char>> {
    if names.len() > 0 && names.last() == dummy_name() {
        seq![dummy_name()] + names.drop_last()
    } else {
        names
    }
}

/// The selection after choosing `name` from `menu`: only a listed name is taken.
pub open spec fn selection_after(
    menu: Seq<Seq<char>>,
    selection: Option<Seq<char>>,
    name: Seq<char>,
) -> Option<Seq<char>> {
    if menu.contains(name) {
        Some(name)
    } else {
        selection
    }
}

/// A fetch started for `target` may be shown only while `target` is still selected.
pub open spec fn fetch_applies(selection: Option<Seq<char>>, target: Seq<char>) -> bool {
    selection == Some(target)
}

/// The highest battery level, in percent.
pub const MAX_LEVEL: u64 = 100;

/// The icon code for a fetched battery level: the level itself where it is a
/// percentage, the error code for a failed fetch or a level out of range.
pub open spec fn fetched_icon(fetched: Option<u64>) -> u64 {
    match fetched {
        Some(level) => if level <= MAX_LEVEL {
            level
        } else {
            ERROR_CODE
        },
        None => ERROR_CODE,
    }
}

/// Tooltip while nothing is selected.
pub open spec fn idle_text() -> Seq<char> {
    "elem"@
}

/// Tooltip while the level of `name` is being fetched on behalf of `source`.
pub open spec fn updating_text(name: Seq<char>, source: Seq<char>) -> Seq<char> {
    "elem (updating "@ + name + " from "@ + source + ")"@
}

/// Tooltip once the level of `name` is shown.
pub open spec fn settled_text(name: Seq<char>) -> Seq<char> {
    "elem ("@ + name + ")"@
}

/// Where a selection or a poll asks for a refresh.
pub open spec fn intent_source() -> Seq<char> {
    "intent"@
}

/// Where the background poller asks for a refresh.
pub open spec fn watchman_source() -> Seq<char> {
    "watchman"@
}

/// What the tray shows: an icon, given by its status code, and a tooltip.
pub struct IconUpdate {
    pub icon: u64,
    pub tooltip: String,
}

/// What follows the pending display of a refresh.
pub enum Next {
    /// Show this at once: no fetch is needed.
    Show(IconUpdate),
    /// Fetch the level of the named device, then hand it to `Tray::complete`.
    Fetch(String),
}

/// The updates of one refresh, in order: `pending`, if any, at once, then `next`.
pub struct Refresh {
    pub pending: Option<IconUpdate>,
    pub next: Next,
}

/// `r` is the refresh of `selection` on behalf of `source`: with nothing
/// selected, the error icon at once; for the debug device, the smiling face
/// at once; for any other device, the pending icon and then a fetch.
pub open spec fn refresh_of(selection: Option<Seq<char>>, source: Seq<char>, r: Refresh) -> bool {
    match selection {
        None => {
            &&& r.pending is None
            &&& r.next matches Next::Show(d) && d.icon == ERROR_CODE && d.tooltip@ == idle_text()
        },
        Some(name) => if name == dummy_name() {
            &&& r.pending is None
            &&& r.next matches Next::Show(d) && d.icon == DUMMY_CODE && d.tooltip@ == settled_text(name)
        } else {
            &&& r.pending matches Some(p) && p.icon == PENDING_CODE && p.tooltip@ == updating_text(name, source)
            &&& r.next matches Next::Fetch(target) && target@ == name
        },
    }
}

fn updating_tooltip(name: &str, source: &str) -> (r: String)
    ensures
        r@ == updating_text(name@, source@),
{
    let mut t = "elem (updating ".to_owned();
    t.append(name);
    t.append(" from ");
    t.append(source);
    t.append(")");
    t
}

fn settled_tooltip(name: &str) -> (r: String)
    ensures
        r@ == settled_text(name@),
{
    let mut t = "elem (".to_owned();
    t.append(name);
    t.append(")");
    t
}

/// The shared state of the tray: the device menu, the selected device and the
/// refresh interval.
pub struct Tray {
    devices: Vec<String>,
    selected_device_display_name: Option<String>,
    update_frequency: u64,
}

impl Tray {
    /// Display names of the menu's devices, in menu order.
    pub closed spec fn menu(&self) -> Seq<Seq<char>> {
        self.devices@.map_values(|s: String| s@)
    }

    /// Display name of the selected device.
    pub closed spec fn selection(&self) -> Option<Seq<char>> {
        option_view(self.selected_device_display_name)
    }

    /// Refresh interval in milliseconds.
    pub closed spec fn frequency(&self) -> u64 {
        self.update_frequency
    }

    /// A tray with an empty menu, no selection, and the refresh interval that
    /// `update_frequency` asks for.
    pub fn new(update_frequency: Option<String>) -> (r: Tray)
        ensures
            r.menu() == Seq::<Seq<char>>::empty(),
            r.selection() is None,
            r.frequency() == frequency_of(option_view(update_frequency)),
    {
        let frequency = update_frequency_from(&update_frequency);
        let r = Tray { devices: Vec::new(), selected_device_display_name: None, update_frequency: frequency };
        assert(r.menu() =~= Seq::<Seq<char>>::empty());
        r
    }

    /// Fills the menu with the display names of `devices` in menu order and
    /// selects its last entry.
    pub fn initialize(&mut self, devices: &Vec<DeviceInfo>)
        ensures
            final(self).menu() == menu_order(devices@.map_values(|d: DeviceInfo| d.display_name@)),
            final(self).selection() == (if devices@.len() == 0 {
                None
            } else {
                Some(final(self).menu().last())
            }),
            final(self).frequency() == old(self).frequency(),
    {
        let ghost names = devices@.map_values(|d: DeviceInfo| d.display_name@);
        let mut menu: Vec<String> = Vec::new();
        let mut i: usize = 0;
        while i < devices.len()
            invariant
                i <= devices@.len(),
                menu@.len() == i,
                forall|k: int| 0 <= k < i ==> #[trigger] menu@[k]@ == devices@[k].display_name@,
            decreases devices.len() - i,
        {
            menu.push(devices[i].display_name.clone());
            i += 1;
        }
        assert(menu@.map_values(|s: String| s@) =~= names);
        let n = menu.len();
        if n > 0 && is_dummy(menu[n - 1].as_str()) {
            let last = menu.pop().unwrap();
            menu.insert(0, last);
            assert(menu@.map_values(|s: String| s@) =~= menu_order(names));
        }
        self.selected_device_display_name = if n > 0 {
            Some(menu[n - 1].clone())
        } else {
            None
        };
        self.devices = menu;
    }

    /// The refresh of the current selection on behalf of `source`.
    pub fn refresh(&self, source: &str) -> (r: Refresh)
        ensures
            refresh_of(self.selection(), source@, r),
    {
        match &self.selected_device_display_name {
            None => {
                let tooltip = "elem".to_owned();
                Refresh { pending: None, next: Next::Show(IconUpdate { icon: ERROR_CODE, tooltip }) }
            },
            Some(name) => {
                if is_dummy(name.as_str()) {
                    let shown = IconUpdate { icon: DUMMY_CODE, tooltip: settled_tooltip(name.as_str()) };
                    Refresh { pending: None, next: Next::Show(shown) }
                } else {
                    let pending = IconUpdate { icon: PENDING_CODE, tooltip: updating_tooltip(name.as_str(), source) };
                    Refresh { pending: Some(pending), next: Next::Fetch(name.clone()) }
                }
            },
        }
    }

    /// Selects the menu entry `name` and asks for its refresh; `None`, with
    /// the state unchanged, where the menu has no such entry.
    pub fn select(&mut self, name: &str) -> (r: Option<Refresh>)
        ensures
            final(self).menu() == old(self).menu(),
            final(self).frequency() == old(self).frequency(),
            final(self).selection() == selection_after(old(self).menu(), old(self).selection(), name@),
            r is Some <==> old(self).menu().contains(name@),
            r matches Some(refresh) ==> refresh_of(Some(name@), intent_source(), refresh),
    {
        if !self.lists(name) {
            return None;
        }
        self.selected_device_display_name = Some(name.to_owned());
        Some(self.refresh("intent"))
    }

    /// Whether the menu has an entry named `name`.
    fn lists(&self, name: &str) -> (r: bool)
        ensures
            r == self.menu().contains(name@),
    {
        let mut i: usize = 0;
        while i < self.devices.len()
            invariant
                i <= self.devices@.len(),
                forall|k: int| 0 <= k < i ==> self.menu()[k] != name@,
            decreases self.devices.len() - i,
        {
            assert(self.menu()[i as int] == self.devices@[i as int]@);
            if same_text(self.devices[i].as_str(), name) {
                return true;
            }
            i += 1;
        }
        false
    }

    /// What the background poller does on a tick: refresh the selection,
    /// unless the debug device is selected.
    pub fn poll(&self) -> (r: Option<Refresh>)
        ensures
            r is None <==> self.selection() == Some(dummy_name()),
            r matches Some(refresh) ==> refresh_of(self.selection(), watchman_source(), refresh),
    {
        if let Some(name) = &self.selected_device_display_name {
            if is_dummy(name.as_str()) {
                return None;
            }
        }
        Some(self.refresh("watchman"))
    }

    /// The display for a fetch of `target` that ended with `fetched` (`None`
    /// where it failed), a level above `MAX_LEVEL` showing as the error icon;
    /// `None` where the selection has moved on since.
    pub fn complete(&self, target: &str, fetched: Option<u64>) -> (r: Option<IconUpdate>)
        ensures
            r is Some <==> fetch_applies(self.selection(), target@),
            r matches Some(d) ==> d.icon == fetched_icon(fetched) && d.tooltip@ == settled_text(target@),
    {
        match &self.selected_device_display_name {
            Some(name) => {
                if same_text(name.as_str(), target) {
                    let icon = match fetched {
                        Some(level) => if level <= MAX_LEVEL {
                            level
                        } else {
                            ERROR_CODE
                        },
                        None => ERROR_CODE,
                    };
                    Some(IconUpdate { icon, tooltip: settled_tooltip(target) })
                } else {
                    None
                }
            },
            None => None,
        }
    }

    /// Display names of the menu's devices, in menu order.
    pub fn devices(&self) -> (r: &Vec<String>)
        ensures
            r@.map_values(|s: String| s@) == self.menu(),
    {
        &self.devices
    }

    /// Display name of the selected device.
    pub fn selected(&self) -> (r: &Option<String>)
        ensures
            option_view(*r) == self.selection(),
    {
        &self.selected_device_display_name
    }

    /// Refresh interval in milliseconds.
    pub fn update_frequency(&self) -> (r: u64)
        ensures
            r == self.frequency(),
    {
        self.update_frequency
    }
}

/// With the debug device listed at most once and at least one other device
/// listed, the entry selected by default is never the debug device.
pub proof fn lemma_dummy_never_default(names: Seq<Seq<char>>)
    requires
        forall|i: int, j: int|
            0 <= i < names.len() && 0 <= j < names.len() && names[i] == dummy_name() && names[j]
                == dummy_name() ==> i == j,
        exists|i: int| 0 <= i < names.len() && names[i] != dummy_name(),
    ensures
        menu_order(names).len() == names.len(),
        menu_order(names).last() != dummy_name(),
{
    if names.last() == dummy_name() {
        let i = choose|i: int| 0 <= i < names.len() && names[i] != dummy_name();
        assert(names.len() >= 2);
        let m = menu_order(names);
        assert(m.last() == names[names.len() - 2]);
    }
}

/// A fetch started for `a` is dropped once `b`, another listed device, has
/// been selected after it, while a fetch for `b` is shown.
pub proof fn lemma_stale_fetch_dropped(
    menu: Seq<Seq<char>>,
    selection: Option<Seq<char>>,
    a: Seq<char>,
    b: Seq<char>,
)
    requires
        menu.contains(a),
        menu.contains(b),
        a != b,
    ensures
        !fetch_applies(selection_after(menu, selection_after(menu, selection, a), b), a),
        fetch_applies(selection_after(menu, selection_after(menu, selection, a), b), b),
{
}

/// On the menu built from any device listing, the entry selected by default
/// is a real device wherever the listing has a wireless device of another name.
pub proof fn lemma_default_is_real(listed: Seq<(Seq<char>, Seq<char>, Seq<char>, Seq<char>)>)
    requires
        exists|i: int|
            0 <= i < device_menu(listed).len() && #[trigger] device_menu(listed)[i].3 != dummy_name(),
    ensures
        menu_order(device_menu(listed).map_values(|e: (Seq<char>, Seq<char>, Seq<char>, Seq<char>)| e.3)).last()
            != dummy_name(),
{
    let m = device_menu(listed);
    let names = m.map_values(|e: (Seq<char>, Seq<char>, Seq<char>, Seq<char>)| e.3);
    lemma_device_menu_unique(listed);
    let i = choose|i: int| 0 <= i < m.len() && #[trigger] m[i].3 != dummy_name();
    assert(names[i] != dummy_name());
    lemma_dummy_never_default(names);
}

} // verus!

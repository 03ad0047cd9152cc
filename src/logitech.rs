use vstd::prelude::*;

verus! {

/// Display name of the synthetic device that is always present and always full.
pub const DUMMY_DISPLAY_NAME: &'static str = "Dummy (Debug)";

/// Connection type of the devices that have a battery worth showing.
pub const WIRELESS: &'static str = "WIRELESS";

/// The display name of the synthetic debug device.
pub open spec fn dummy_name() -> Seq<char> {
    DUMMY_DISPLAY_NAME@
}

/// Whether `a` and `b` hold the same text.
pub fn same_text(a: &str, b: &str) -> (r: bool)
    ensures
        r == (a@ == b@),
{
    let n = a.unicode_len();
    if n != b.unicode_len() {
        return false;
    }
    let mut i: usize = 0;
    while i < n
        invariant
            i <= n == a@.len() == b@.len(),
            a@.take(i as int) == b@.take(i as int),
        decreases n - i,
    {
        if a.get_char(i) != b.get_char(i) {
            return false;
        }
        i += 1;
        assert(a@.take(i as int) =~= a@.take(i - 1).push(a@[i - 1]));
        assert(b@.take(i as int) =~= b@.take(i - 1).push(b@[i - 1]));
    }
    assert(a@ =~= a@.take(n as int));
    assert(b@ =~= b@.take(n as int));
    true
}

/// Whether `name` is the display name of the synthetic debug device.
pub fn is_dummy(name: &str) -> (r: bool)
    ensures
        r == (name@ == dummy_name()),
{
    same_text(name, DUMMY_DISPLAY_NAME)
}

/// A device as the device service lists it.
pub struct DeviceInfo {
    pub id: String,
    pub connection_type: String,
    pub device_type: String,
    pub display_name: String,
}

impl View for DeviceInfo {
    /// Identifier, connection type, device type and display name.
    type V = (Seq<char>, Seq<char>, Seq<char>, Seq<char>);

    open spec fn view(&self) -> Self::V {
        (self.id@, self.connection_type@, self.device_type@, self.display_name@)
    }
}

impl DeviceInfo {
    pub fn new(id: &str, connection_type: &str, device_type: &str, display_name: &str) -> (r: Self)
        ensures
            r@ == (id@, connection_type@, device_type@, display_name@),
            r.id@ == id@,
            r.display_name@ == display_name@,
    {
        DeviceInfo {
            id: id.to_owned(),
            connection_type: connection_type.to_owned(),
            device_type: device_type.to_owned(),
            display_name: display_name.to_owned(),
        }
    }

    /// A copy of `device_info`.
    pub fn from_device_info(device_info: &Self) -> (r: Self)
        ensures
            r@ == device_info@,
            r.id@ == device_info.id@,
            r.display_name@ == device_info.display_name@,
    {
        DeviceInfo {
            id: device_info.id.clone(),
            connection_type: device_info.connection_type.clone(),
            device_type: device_info.device_type.clone(),
            display_name: device_info.display_name.clone(),
        }
    }
}

/// The entry that stands for the synthetic debug device.
pub open spec fn dummy_info() -> (Seq<char>, Seq<char>, Seq<char>, Seq<char>) {
    ("dummy_debug"@, WIRELESS@, "MOUSE"@, dummy_name())
}

/// Index of the last entry of `m` named `name`, or -1.
pub open spec fn last_index_of(m: Seq<(Seq<char>, Seq<char>, Seq<char>, Seq<char>)>, name: Seq<char>) -> int
    decreases m.len(),
{
    if m.len() == 0 {
        -1
    } else if m.last().3 == name {
        m.len() - 1
    } else {
        last_index_of(m.drop_last(), name)
    }
}

/// `m` with `e` in place of the entry of the same display name, or with `e`
/// added at the end where there is none.
pub open spec fn upsert(
    m: Seq<(Seq<char>, Seq<char>, Seq<char>, Seq<char>)>,
    e: (Seq<char>, Seq<char>, Seq<char>, Seq<char>),
) -> Seq<(Seq<char>, Seq<char>, Seq<char>, Seq<char>)> {
    let j = last_index_of(m, e.3);
    if j < 0 {
        m.push(e)
    } else {
        m.update(j, e)
    }
}

/// The wireless entries of `listed`, one per display name, a later entry
/// taking the place of an earlier one of the same name.
pub open spec fn wireless_of(listed: Seq<(Seq<char>, Seq<char>, Seq<char>, Seq<char>)>) -> Seq<
    (Seq<char>, Seq<char>, Seq<char>, Seq<char>),
>
    decreases listed.len(),
{
    if listed.len() == 0 {
        seq![]
    } else if listed.last().1 == WIRELESS@ {
        upsert(wireless_of(listed.drop_last()), listed.last())
    } else {
        wireless_of(listed.drop_last())
    }
}

/// The device menu for the devices `listed`: the wireless ones, one per
/// display name, and the debug device.
pub open spec fn device_menu(listed: Seq<(Seq<char>, Seq<char>, Seq<char>, Seq<char>)>) -> Seq<
    (Seq<char>, Seq<char>, Seq<char>, Seq<char>),
> {
    upsert(wireless_of(listed), dummy_info())
}

proof fn lemma_last_index_bounds(m: Seq<(Seq<char>, Seq<char>, Seq<char>, Seq<char>)>, name: Seq<char>)
    ensures
        -1 <= last_index_of(m, name) < m.len(),
        last_index_of(m, name) >= 0 ==> m[last_index_of(m, name)].3 == name,
    decreases m.len(),
{
    if m.len() > 0 {
        lemma_last_index_bounds(m.drop_last(), name);
    }
}

/// Puts `e` in place of the entry of `menu` with its display name, or at the end.
fn upsert_device(menu: &mut Vec<DeviceInfo>, e: DeviceInfo)
    ensures
        final(menu)@.map_values(|d: DeviceInfo| d@) == upsert(old(menu)@.map_values(|d: DeviceInfo| d@), e@),
{
    let ghost m = menu@.map_values(|d: DeviceInfo| d@);
    assert(m.take(m.len() as int) =~= m);
    let mut j: usize = menu.len();
    while j > 0
        invariant
            j <= menu@.len(),
            menu@ == old(menu)@,
            m == menu@.map_values(|d: DeviceInfo| d@),
            last_index_of(m, e@.3) == last_index_of(m.take(j as int), e@.3),
        decreases j,
    {
        assert(m.take(j as int).drop_last() =~= m.take(j - 1));
        assert(m[j - 1] == menu@[j - 1]@);
        if same_text(menu[j - 1].display_name.as_str(), e.display_name.as_str()) {
            proof {
                assert(m.take(j as int).last().3 == e@.3);
                lemma_last_index_bounds(m, e@.3);
            }
            menu.set(j - 1, e);
            assert(menu@.map_values(|d: DeviceInfo| d@) =~= upsert(m, e@));
            return;
        }
        j -= 1;
    }
    menu.push(e);
    assert(menu@.map_values(|d: DeviceInfo| d@) =~= upsert(m, e@));
}

/// The device menu for the devices that the service listed: each wireless
/// device once per display name, the later listing winning, then the debug
/// device.
pub fn wireless_devices(listed: &Vec<DeviceInfo>) -> (r: Vec<DeviceInfo>)
    ensures
        r@.map_values(|d: DeviceInfo| d@) == device_menu(listed@.map_values(|d: DeviceInfo| d@)),
{
    let ghost all = listed@.map_values(|d: DeviceInfo| d@);
    let mut menu: Vec<DeviceInfo> = Vec::new();
    let mut i: usize = 0;
    while i < listed.len()
        invariant
            i <= listed@.len(),
            all == listed@.map_values(|d: DeviceInfo| d@),
            menu@.map_values(|d: DeviceInfo| d@) == wireless_of(all.take(i as int)),
        decreases listed.len() - i,
    {
        assert(all.take(i + 1).drop_last() =~= all.take(i as int));
        if same_text(listed[i].connection_type.as_str(), WIRELESS) {
            upsert_device(&mut menu, DeviceInfo::from_device_info(&listed[i]));
        }
        i += 1;
    }
    assert(all.take(listed@.len() as int) =~= all);
    upsert_device(&mut menu, DeviceInfo::new("dummy_debug", WIRELESS, "MOUSE", DUMMY_DISPLAY_NAME));
    menu
}

/// The battery state that the service reports for a device.
pub struct DevicePayload {
    percentage: u64,
}

impl DevicePayload {
    /// Battery level in percent.
    pub closed spec fn level(&self) -> u64 {
        self.percentage
    }

    pub fn new(percentage: u64) -> (r: Self)
        ensures
            r.level() == percentage,
    {
        DevicePayload { percentage }
    }

    /// Battery level in percent.
    pub fn percentage(&self) -> (r: u64)
        ensures
            r == self.level(),
    {
        self.percentage
    }
}

/// The service's answer to a battery query.
pub struct Device {
    payload: DevicePayload,
}

impl Device {
    /// Battery level in percent.
    pub closed spec fn level(&self) -> u64 {
        self.payload.level()
    }

    pub fn new(payload: DevicePayload) -> (r: Self)
        ensures
            r.level() == payload.level(),
    {
        Device { payload }
    }

    pub fn payload(&self) -> (r: &DevicePayload)
        ensures
            r.level() == self.level(),
    {
        &self.payload
    }

    /// The answer for a device that needs no query: the debug device, always
    /// full; `None` for any other.
    pub fn local(display_name: &str) -> (r: Option<Device>)
        ensures
            r is Some <==> display_name@ == dummy_name(),
            r matches Some(d) ==> d.level() == 100,
    {
        if is_dummy(display_name) {
            Some(Device { payload: DevicePayload { percentage: 100 } })
        } else {
            None
        }
    }
}

/// The identifier of the menu entry named `display_name`.
pub fn device_id(devices: &Vec<DeviceInfo>, display_name: &str) -> (r: Option<String>)
    ensures
        r is None <==> last_index_of(devices@.map_values(|d: DeviceInfo| d@), display_name@) < 0,
        r matches Some(id) ==> id@ == devices@[last_index_of(
            devices@.map_values(|d: DeviceInfo| d@),
            display_name@,
        )]@.0,
{
    let ghost m = devices@.map_values(|d: DeviceInfo| d@);
    assert(m.take(m.len() as int) =~= m);
    let mut j: usize = devices.len();
    while j > 0
        invariant
            j <= devices@.len(),
            m == devices@.map_values(|d: DeviceInfo| d@),
            last_index_of(m, display_name@) == last_index_of(m.take(j as int), display_name@),
        decreases j,
    {
        assert(m.take(j as int).drop_last() =~= m.take(j - 1));
        assert(m[j - 1] == devices@[j - 1]@);
        if same_text(devices[j - 1].display_name.as_str(), display_name) {
            assert(m.take(j as int).last().3 == display_name@);
            return Some(devices[j - 1].id.clone());
        }
        j -= 1;
    }
    assert(m.take(0) =~= Seq::<(Seq<char>, Seq<char>, Seq<char>, Seq<char>)>::empty());
    None
}

/// No two entries of `m` share a display name.
pub open spec fn unique_names(m: Seq<(Seq<char>, Seq<char>, Seq<char>, Seq<char>)>) -> bool {
    forall|i: int, j: int| 0 <= i < m.len() && 0 <= j < m.len() && m[i].3 == m[j].3 ==> i == j
}

proof fn lemma_last_index_absent(m: Seq<(Seq<char>, Seq<char>, Seq<char>, Seq<char>)>, name: Seq<char>)
    ensures
        last_index_of(m, name) < 0 ==> forall|k: int| 0 <= k < m.len() ==> #[trigger] m[k].3 != name,
    decreases m.len(),
{
    if m.len() > 0 {
        lemma_last_index_absent(m.drop_last(), name);
        if last_index_of(m, name) < 0 {
            assert forall|k: int| 0 <= k < m.len() implies #[trigger] m[k].3 != name by {
                if k < m.len() - 1 {
                    assert(m.drop_last()[k] == m[k]);
                }
            }
        }
    }
}

proof fn lemma_upsert_unique(
    m: Seq<(Seq<char>, Seq<char>, Seq<char>, Seq<char>)>,
    e: (Seq<char>, Seq<char>, Seq<char>, Seq<char>),
)
    requires
        unique_names(m),
    ensures
        unique_names(upsert(m, e)),
        exists|k: int| 0 <= k < upsert(m, e).len() && #[trigger] upsert(m, e)[k] == e,
{
    lemma_last_index_bounds(m, e.3);
    lemma_last_index_absent(m, e.3);
    let j = last_index_of(m, e.3);
    if j < 0 {
        assert(upsert(m, e)[m.len() as int] == e);
    } else {
        assert(upsert(m, e)[j] == e);
    }
}

proof fn lemma_wireless_unique(listed: Seq<(Seq<char>, Seq<char>, Seq<char>, Seq<char>)>)
    ensures
        unique_names(wireless_of(listed)),
    decreases listed.len(),
{
    if listed.len() > 0 {
        lemma_wireless_unique(listed.drop_last());
        if listed.last().1 == WIRELESS@ {
            lemma_upsert_unique(wireless_of(listed.drop_last()), listed.last());
        }
    }
}

/// The device menu lists each display name once, the debug device among them.
pub proof fn lemma_device_menu_unique(listed: Seq<(Seq<char>, Seq<char>, Seq<char>, Seq<char>)>)
    ensures
        unique_names(device_menu(listed)),
        exists|k: int| 0 <= k < device_menu(listed).len() && #[trigger] device_menu(listed)[k] == dummy_info(),
{
    lemma_wireless_unique(listed);
    let w = wireless_of(listed);
    lemma_upsert_unique(w, dummy_info());
    let k = choose|k: int| 0 <= k < upsert(w, dummy_info()).len() && #[trigger] upsert(w, dummy_info())[k] == dummy_info();
    assert(device_menu(listed)[k] == dummy_info());
}

} // verus!

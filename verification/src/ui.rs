//! The screen's state: tabs of the pages fed by the broker, the common log,
//! which page the selected tab shows, and the status of devices.

use vstd::prelude::*;

use crate::app::{controls, name_differs, without_name, App, Tab, TabVariant};
use crate::config::{now, Config, DateTime};
use crate::mqtt::CommonLog;
use crate::run::{is_device_page, page_name, tab_of, Device2Tab};

verus! {

/// Readings kept for a device's graph of its hottest and coldest cell.
pub const DATA_CAPACITY: usize = 100;

/// Alarms kept in a device's history.
pub const DATA_ALARMA_CAPACITY: usize = 3;

/// Milliseconds the screen waits for a key before drawing again.
pub const UI_REFRESH_DELAY: u64 = 250;

pub const STATUS_INIT: &'static str = "init";

pub const STATUS_ON_PAUSE: &'static str = "on pause";

pub const STATUS_RECEIVING: &'static str = "receiving";

pub const STATUS_UNKNOWN: &'static str = "unknown";

pub const STATUS_TO_REMOVE: &'static str = "to_remove";

/// Which end of the temperature range a value marks.
#[derive(Debug, Clone, Copy, PartialEq, Eq, Structural)]
pub enum BoundaryVariant {
    Max,
    Min,
}

/// What is known of a device's data stream.
#[derive(Debug, Clone, Copy, PartialEq, Eq, Structural)]
pub enum Status {
    Init,
    OnPause,
    Receiving,
    Unknown,
    ToRemove,
}

/// The name under which a status is shown.
pub open spec fn status_label(s: Status) -> Seq<char> {
    match s {
        Status::Init => STATUS_INIT@,
        Status::OnPause => STATUS_ON_PAUSE@,
        Status::Receiving => STATUS_RECEIVING@,
        Status::Unknown => STATUS_UNKNOWN@,
        Status::ToRemove => STATUS_TO_REMOVE@,
    }
}

impl Status {
    /// The name under which this status is shown.
    pub fn label(&self) -> (r: &'static str)
        ensures
            r@ == status_label(*self),
    {
        match self {
            Status::Init => STATUS_INIT,
            Status::OnPause => STATUS_ON_PAUSE,
            Status::Receiving => STATUS_RECEIVING,
            Status::Unknown => STATUS_UNKNOWN,
            Status::ToRemove => STATUS_TO_REMOVE,
        }
    }

    /// The line shown in a device's log: `"status: <name>"`.
    pub fn render(&self) -> (r: String)
        ensures
            r@ == "status: "@ + status_label(*self),
    {
        let mut r = String::from_str("status: ");
        r.append(self.label());
        r
    }
}

/// What the area under the tab bar shows.
#[derive(Debug, Clone, Copy, PartialEq, Eq, Structural)]
pub enum Page {
    /// The table of terminal colours.
    Colors,
    /// The heat maps of all devices side by side.
    Heatmaps,
    /// The common log of the broker's messages.
    ErrorLog,
    /// The page of the tab at this position.
    Device(usize),
}

/// The page shown when the tab at `index` is selected.
pub open spec fn page_at(index: usize) -> Page {
    if index == 0 {
        Page::Colors
    } else if index == 1 {
        Page::Heatmaps
    } else if index == 2 {
        Page::ErrorLog
    } else {
        Page::Device(index)
    }
}

/// The pages without the device page of the given name, the others in order.
pub open spec fn without_device_page(pages: Seq<Device2Tab>, name: Seq<char>) -> Seq<Device2Tab> {
    pages.filter(not_device_page(name))
}

/// Whether a page is other than the device page of the given name.
pub open spec fn not_device_page(name: Seq<char>) -> spec_fn(Device2Tab) -> bool {
    |d: Device2Tab| !is_device_page(d, name)
}

/// The topic whose data the tab at `index` shows: the page `index - 2` of the
/// broker-fed pages, or the base topic when there is none.
pub open spec fn topic_at(pages: Seq<Device2Tab>, index: usize, base: Seq<char>) -> Seq<char> {
    if index >= 2 && index - 2 < pages.len() {
        page_name(pages[index - 2])
    } else {
        base
    }
}

/// Whether some page is the device page of the given name.
pub open spec fn has_page(pages: Seq<Device2Tab>, name: Seq<char>) -> bool {
    exists|i: int| 0 <= i < pages.len() && is_device_page(#[trigger] pages[i], name)
}

/// The device pages added for `keys`, in order: one for each key that has
/// no device page yet among `pages` and the pages added before it.
pub open spec fn added_pages(pages: Seq<Device2Tab>, keys: Seq<String>) -> Seq<Device2Tab>
    decreases keys.len(),
{
    if keys.len() == 0 {
        Seq::empty()
    } else {
        let before = added_pages(pages, keys.drop_last());
        if has_page(pages + before, keys.last()@) {
            before
        } else {
            before.push(Device2Tab::Dynamic(keys.last()))
        }
    }
}

/// Nanoseconds from `earlier` to `later` (negative when `later` comes first).
pub open spec fn elapsed_ns(later: DateTime, earlier: DateTime) -> int {
    (later.secs - earlier.secs) * 1_000_000_000 + (later.nanos - earlier.nanos)
}

/// Nanoseconds from `earlier` to `later`.
pub fn elapsed(later: DateTime, earlier: DateTime) -> (r: i128)
    ensures
        r == elapsed_ns(later, earlier),
{
    (later.secs as i128 - earlier.secs as i128) * 1_000_000_000i128 + (later.nanos as i128
        - earlier.nanos as i128)
}

/// What the age of a device's latest data calls for.
#[derive(Debug, Clone, Copy, PartialEq, Eq, Structural)]
pub enum AgeAction {
    /// Older than the removal limit: drop the device.
    Remove,
    /// Older than the warning limit: mark it for removal.
    ToRemove,
    /// Older than the unknown limit: mark it unknown.
    Unknown,
    /// Recent enough: leave it.
    Keep,
}

/// Whether data `age_ns` nanoseconds old is younger than `limit_ms` milliseconds.
pub open spec fn younger(age_ns: int, limit_ms: i64) -> bool {
    age_ns < limit_ms * 1_000_000
}

/// The action for data of the given age: the removal limit is checked
/// first, then the warning limit, then the unknown limit.
pub open spec fn age_action_spec(age_ns: int, config: Config) -> AgeAction {
    if !younger(age_ns, config.duration_limit_device_remove) {
        AgeAction::Remove
    } else if !younger(age_ns, config.duration_limit_device_remove_warn) {
        AgeAction::ToRemove
    } else if !younger(age_ns, config.duration_limit_device_unknown) {
        AgeAction::Unknown
    } else {
        AgeAction::Keep
    }
}

/// The limits that an age check of data `age_ns` nanoseconds old turns into
/// spans can be so turned (chrono refuses `i64::MIN` milliseconds): the
/// removal limit always, the warning limit when the data is younger than the
/// removal limit, the unknown limit when it is younger than both.
pub open spec fn limits_valid_at(age_ns: int, config: Config) -> bool {
    &&& config.duration_limit_device_remove > i64::MIN
    &&& younger(age_ns, config.duration_limit_device_remove)
        ==> config.duration_limit_device_remove_warn > i64::MIN
    &&& younger(age_ns, config.duration_limit_device_remove) && younger(
        age_ns,
        config.duration_limit_device_remove_warn,
    ) ==> config.duration_limit_device_unknown > i64::MIN
}

fn is_younger(age_ns: i128, limit_ms: i64) -> (r: bool)
    ensures
        r == younger(age_ns as int, limit_ms),
{
    age_ns < limit_ms as i128 * 1_000_000i128
}

fn classify_age(age_ns: i128, config: &Config) -> (a: AgeAction)
    ensures
        a == age_action_spec(age_ns as int, *config),
{
    if !is_younger(age_ns, config.duration_limit_device_remove) {
        AgeAction::Remove
    } else if !is_younger(age_ns, config.duration_limit_device_remove_warn) {
        AgeAction::ToRemove
    } else if !is_younger(age_ns, config.duration_limit_device_unknown) {
        AgeAction::Unknown
    } else {
        AgeAction::Keep
    }
}

/// What the age of a device's latest data calls for.
pub fn age_action(age_ns: i128, config: &Config) -> (a: AgeAction)
    requires
        limits_valid_at(age_ns as int, *config),
    ensures
        a == age_action_spec(age_ns as int, *config),
{
    classify_age(age_ns, config)
}

/// Data of this age is younger than every limit.
pub open spec fn recent_for(age_ns: int, config: Config) -> bool {
    &&& younger(age_ns, config.duration_limit_device_remove)
    &&& younger(age_ns, config.duration_limit_device_remove_warn)
    &&& younger(age_ns, config.duration_limit_device_unknown)
}

/// Whole minutes in `ns` nanoseconds, rounded toward zero.
pub open spec fn whole_minutes(ns: int) -> int {
    if ns >= 0 {
        ns / 60_000_000_000
    } else {
        -((-ns) / 60_000_000_000)
    }
}

/// What is known of a device apart from its temperatures: its status, topic,
/// id, and when its data started and last arrived.
pub struct DeviceState {
    pub status: Status,
    pub topic: String,
    pub uuid: String,
    pub datetime_init: DateTime,
    pub datetime_last: DateTime,
}

/// The state after an age check with the given action, and the devices to
/// remove after it.
pub open spec fn after_age_check(
    old: DeviceState,
    old_remove: Seq<String>,
    new: DeviceState,
    new_remove: Seq<String>,
    action: AgeAction,
) -> bool {
    match action {
        AgeAction::Remove => new == old && new_remove == old_remove.push(old.topic),
        AgeAction::ToRemove => new == DeviceState { status: Status::ToRemove, ..old }
            && new_remove == old_remove,
        AgeAction::Unknown => new == DeviceState { status: Status::Unknown, ..old }
            && new_remove == old_remove,
        AgeAction::Keep => new == old && new_remove == old_remove,
    }
}

impl DeviceState {
    /// A device that has just appeared: status `Init`, placeholder topic and
    /// id, both times now.
    pub fn init(config: &Config) -> (d: Self)
        ensures
            d.status == Status::Init,
            d.topic@ == config.default_empty_topic@,
            d.uuid@ == config.default_empty_uuid@,
            d.datetime_init == d.datetime_last,
    {
        let t = now();
        Self {
            status: Status::Init,
            topic: config.default_empty_topic.clone(),
            uuid: config.default_empty_uuid.clone(),
            datetime_init: t,
            datetime_last: t,
        }
    }

    /// Records a measurement: the device is receiving, unless its id
    /// changed (the sensor rebooted), in which case it starts again at
    /// `Init` from this measurement's time.
    pub fn record(&mut self, topic: String, uuid: String, datetime: DateTime)
        ensures
            final(self).status == if old(self).uuid@ == uuid@ {
                Status::Receiving
            } else {
                Status::Init
            },
            final(self).datetime_init == if old(self).uuid@ == uuid@ {
                old(self).datetime_init
            } else {
                datetime
            },
            final(self).datetime_last == datetime,
            final(self).topic == topic,
            final(self).uuid == uuid,
    {
        self.status = Status::Receiving;
        if !self.uuid.eq(&uuid) {
            self.status = Status::Init;
            self.datetime_init = datetime;
        }
        self.datetime_last = datetime;
        self.topic = topic;
        self.uuid = uuid;
    }

    fn act_on_age(&mut self, age_ns: i128, config: &Config, devices_to_remove: &mut Vec<String>)
        ensures
            after_age_check(
                *old(self),
                old(devices_to_remove)@,
                *final(self),
                final(devices_to_remove)@,
                age_action_spec(age_ns as int, *config),
            ),
    {
        match classify_age(age_ns, config) {
            AgeAction::Remove => devices_to_remove.push(self.topic.clone()),
            AgeAction::ToRemove => self.status = Status::ToRemove,
            AgeAction::Unknown => self.status = Status::Unknown,
            AgeAction::Keep => {},
        }
    }

    /// Checks the age of the latest data at time `now`: an old device is
    /// listed for removal, or marked for removal, or marked unknown.
    pub fn status_at(&mut self, now: DateTime, config: &Config, devices_to_remove: &mut Vec<String>)
        requires
            limits_valid_at(elapsed_ns(now, old(self).datetime_last), *config),
        ensures
            after_age_check(
                *old(self),
                old(devices_to_remove)@,
                *final(self),
                final(devices_to_remove)@,
                age_action_spec(elapsed_ns(now, old(self).datetime_last), *config),
            ),
            recent_for(elapsed_ns(now, old(self).datetime_last), *config) ==> *final(self)
                == *old(self) && final(devices_to_remove)@ == old(devices_to_remove)@,
            !younger(elapsed_ns(now, old(self).datetime_last), config.duration_limit_device_remove)
                ==> *final(self) == *old(self) && final(devices_to_remove)@ == old(
                devices_to_remove,
            )@.push(old(self).topic),
    {
        self.act_on_age(elapsed(now, self.datetime_last), config, devices_to_remove);
    }

    /// Checks the age of the latest data now, as `status_at` does for the
    /// time the clock reads. The removal limit must be a valid span; a
    /// warning or unknown limit of `i64::MIN` milliseconds that the check
    /// reaches counts as passed.
    pub fn verify_status(&mut self, config: &Config, devices_to_remove: &mut Vec<String>)
        requires
            config.duration_limit_device_remove > i64::MIN,
        ensures
            exists|t: DateTime|
                after_age_check(
                    *old(self),
                    old(devices_to_remove)@,
                    *final(self),
                    final(devices_to_remove)@,
                    #[trigger] age_action_spec(elapsed_ns(t, old(self).datetime_last), *config),
                ),
    {
        let t = now();
        self.act_on_age(elapsed(t, self.datetime_last), config, devices_to_remove);
    }

    /// One step of the device task: a paused device is left as it is, any
    /// other has its age checked now.
    pub fn check_unless_paused(&mut self, config: &Config, devices_to_remove: &mut Vec<String>)
        requires
            config.duration_limit_device_remove > i64::MIN,
        ensures
            old(self).status == Status::OnPause ==> *final(self) == *old(self)
                && final(devices_to_remove)@ == old(devices_to_remove)@,
            old(self).status != Status::OnPause ==> exists|t: DateTime|
                after_age_check(
                    *old(self),
                    old(devices_to_remove)@,
                    *final(self),
                    final(devices_to_remove)@,
                    #[trigger] age_action_spec(elapsed_ns(t, old(self).datetime_last), *config),
                ),
    {
        match self.status {
            Status::OnPause => {},
            _ => self.verify_status(config, devices_to_remove),
        }
    }

    /// Marks the device as paused; nothing else changes.
    pub fn pause(&mut self)
        ensures
            *final(self) == (DeviceState { status: Status::OnPause, ..*old(self) }),
    {
        self.status = Status::OnPause;
    }

    /// Whole minutes from the first to the latest data, rounded toward zero.
    pub fn uptime_minutes(&self) -> (m: i64)
        ensures
            m == whole_minutes(elapsed_ns(self.datetime_last, self.datetime_init)),
            elapsed_ns(self.datetime_last, self.datetime_init) >= 0 ==> m * 60_000_000_000
                <= elapsed_ns(self.datetime_last, self.datetime_init) < (m + 1) * 60_000_000_000,
            elapsed_ns(self.datetime_last, self.datetime_init) < 0 ==> (m - 1) * 60_000_000_000
                < elapsed_ns(self.datetime_last, self.datetime_init) <= m * 60_000_000_000,
    {
        proof {
            law_whole_minutes_count(elapsed_ns(self.datetime_last, self.datetime_init));
        }
        let ns = elapsed(self.datetime_last, self.datetime_init);
        let minutes: i128 = if ns >= 0 {
            ns / 60_000_000_000i128
        } else {
            -((-ns) / 60_000_000_000i128)
        };
        minutes as i64
    }
}

/// The uptime counts every whole minute of the span, rounded toward zero:
/// it grows without bound with the span.
pub proof fn law_whole_minutes_count(ns: int)
    ensures
        ns >= 0 ==> whole_minutes(ns) * 60_000_000_000 <= ns < (whole_minutes(ns) + 1)
            * 60_000_000_000,
        ns < 0 ==> (whole_minutes(ns) - 1) * 60_000_000_000 < ns <= whole_minutes(ns)
            * 60_000_000_000,
{
    if ns >= 0 {
        vstd::arithmetic::div_mod::lemma_fundamental_div_mod(ns, 60_000_000_000);
    } else {
        vstd::arithmetic::div_mod::lemma_fundamental_div_mod(-ns, 60_000_000_000);
    }
}

/// Data younger than every limit leaves the device as it was, whatever the
/// action's other inputs.
pub proof fn law_recent_device_kept(
    old_state: DeviceState,
    old_remove: Seq<String>,
    new_state: DeviceState,
    new_remove: Seq<String>,
    now: DateTime,
    config: Config,
)
    requires
        after_age_check(
            old_state,
            old_remove,
            new_state,
            new_remove,
            age_action_spec(elapsed_ns(now, old_state.datetime_last), config),
        ),
        recent_for(elapsed_ns(now, old_state.datetime_last), config),
    ensures
        new_state == old_state,
        new_remove == old_remove,
{
}

/// The age check reads only the time of the latest data: two states that
/// differ in anything else, the time the data started included, get the
/// same action at the same time.
pub proof fn law_age_check_ignores_start(a: DeviceState, b: DeviceState, now: DateTime, config: Config)
    requires
        a.datetime_last == b.datetime_last,
    ensures
        age_action_spec(elapsed_ns(now, a.datetime_last), config) == age_action_spec(
            elapsed_ns(now, b.datetime_last),
            config,
        ),
{
}

/// The later the check, the older the data: data that is not younger than
/// the removal limit at one time is not younger at any later time.
pub proof fn law_removal_is_final(last: DateTime, t1: DateTime, t2: DateTime, config: Config)
    requires
        age_action_spec(elapsed_ns(t1, last), config) == AgeAction::Remove,
        elapsed_ns(t1, last) <= elapsed_ns(t2, last),
    ensures
        age_action_spec(elapsed_ns(t2, last), config) == AgeAction::Remove,
{
}

/// The screen: the application, the devices' data, the pages fed by the
/// broker (in the order of their tabs) and the common log.
pub struct Render<D> {
    pub app: App,
    pub devices: D,
    pub dynamic_tabs: Vec<Device2Tab>,
    pub common_log: CommonLog,
}

impl<D> Render<D> {
    pub fn new(app: App, devices: D) -> (r: Self)
        ensures
            r.app == app,
            r.devices == devices,
            r.dynamic_tabs@.len() == 0,
            r.common_log.logs@.len() == 0,
    {
        Self { app, devices, dynamic_tabs: Vec::new(), common_log: CommonLog::default() }
    }

    /// The screen as it starts: the colour and heat-map tabs, then the page
    /// and tab of the broker's error log.
    pub fn with_fixed_pages(app: App, devices: D, error_topic: String) -> (r: Self)
        ensures
            r.app.tabs.titles@.len() == app.tabs.titles@.len() + 3,
            r.app.tabs.titles@.take(app.tabs.titles@.len() as int) == app.tabs.titles@,
            r.app.tabs.titles@[app.tabs.titles@.len() as int].name@ == "color"@,
            r.app.tabs.titles@[app.tabs.titles@.len() as int].variant == TabVariant::Static,
            r.app.tabs.titles@[app.tabs.titles@.len() + 1int].name@ == "heatmap"@,
            r.app.tabs.titles@[app.tabs.titles@.len() + 1int].variant == TabVariant::Static,
            r.app.tabs.titles@[app.tabs.titles@.len() + 2int] == tab_of(
                Device2Tab::Fixed(error_topic),
            ),
            r.dynamic_tabs@ == seq![Device2Tab::Fixed(error_topic)],
            app.tabs.titles@.len() == 0 ==> tabs_follow_pages(r.app.tabs.titles@, r.dynamic_tabs@),
            controls(r.app) == controls(app),
            r.app.config == app.config,
            r.devices == devices,
            r.common_log.logs@.len() == 0,
    {
        let mut r = Self::new(app, devices);
        r.app.push_title(Tab::new(String::from_str("color"), TabVariant::Static));
        r.app.push_title(Tab::new(String::from_str("heatmap"), TabVariant::Static));
        r.insert_device(Device2Tab::Fixed(error_topic));
        assert(r.dynamic_tabs@ =~= seq![Device2Tab::Fixed(error_topic)]);
        assert(r.app.tabs.titles@.take(app.tabs.titles@.len() as int) =~= app.tabs.titles@);
        r
    }

    /// Drops the tabs of a device that stopped sending: every tab with its
    /// name, and its device page.
    pub fn remove_device(&mut self, device: &String)
        ensures
            final(self).app.tabs.titles@ == without_name(old(self).app.tabs.titles@, device@),
            final(self).dynamic_tabs@ == without_device_page(old(self).dynamic_tabs@, device@),
            controls(final(self).app) == controls(old(self).app),
            final(self).app.config == old(self).app.config,
            final(self).devices == old(self).devices,
            final(self).common_log == old(self).common_log,
    {
        self.app.tabs.remove(device);
        let ghost orig = self.dynamic_tabs@;
        let ghost keep = not_device_page(device@);
        let mut kept: Vec<Device2Tab> = Vec::new();
        let mut i: usize = 0;
        while i < self.dynamic_tabs.len()
            invariant
                i <= orig.len(),
                self.dynamic_tabs@ == orig,
                kept@ == orig.take(i as int).filter(keep),
                keep == not_device_page(device@),
            decreases orig.len() - i,
        {
            proof {
                assert(orig.take(i + 1).drop_last() =~= orig.take(i as int));
                reveal_with_fuel(Seq::filter, 1);
            }
            let is_page = match &self.dynamic_tabs[i] {
                Device2Tab::Dynamic(name) => name.eq(device),
                Device2Tab::Fixed(_) => false,
            };
            if !is_page {
                kept.push(self.dynamic_tabs[i].clone());
            }
            i = i + 1;
        }
        assert(orig.take(i as int) =~= orig);
        self.dynamic_tabs = kept;
    }

    /// Adds a page fed by the broker, and its tab at the end of the tab bar.
    pub fn insert_device(&mut self, device: Device2Tab)
        ensures
            final(self).app.tabs.titles@ == old(self).app.tabs.titles@.push(tab_of(device)),
            final(self).dynamic_tabs@ == old(self).dynamic_tabs@.push(device),
            controls(final(self).app) == controls(old(self).app),
            final(self).app.config == old(self).app.config,
            final(self).devices == old(self).devices,
            final(self).common_log == old(self).common_log,
    {
        self.dynamic_tabs.push(device.clone());
        self.app.push_title(device.get_tab())
    }

    /// Whether the device of the given name has its page.
    pub fn has_device_page(&self, name: &String) -> (r: bool)
        ensures
            r == exists|i: int|
                0 <= i < self.dynamic_tabs@.len() && is_device_page(
                    #[trigger] self.dynamic_tabs@[i],
                    name@,
                ),
    {
        let mut i: usize = 0;
        while i < self.dynamic_tabs.len()
            invariant
                i <= self.dynamic_tabs@.len(),
                forall|k: int| 0 <= k < i ==> !is_device_page(#[trigger] self.dynamic_tabs@[k], name@),
            decreases self.dynamic_tabs@.len() - i,
        {
            let found = match &self.dynamic_tabs[i] {
                Device2Tab::Dynamic(n) => n.eq(name),
                Device2Tab::Fixed(_) => false,
            };
            if found {
                return true;
            }
            i = i + 1;
        }
        false
    }

    /// Gives each device among `keys` that has no page yet its page and tab,
    /// in the order of `keys`; tells for each key whether it got a page now.
    pub fn add_device_pages(&mut self, keys: &Vec<String>) -> (added: Vec<bool>)
        ensures
            final(self).dynamic_tabs@ == old(self).dynamic_tabs@ + added_pages(
                old(self).dynamic_tabs@,
                keys@,
            ),
            final(self).app.tabs.titles@ == old(self).app.tabs.titles@ + added_pages(
                old(self).dynamic_tabs@,
                keys@,
            ).map_values(|d: Device2Tab| tab_of(d)),
            added@.len() == keys@.len(),
            forall|i: int|
                0 <= i < keys@.len() ==> #[trigger] added@[i] == !has_page(
                    old(self).dynamic_tabs@ + added_pages(
                        old(self).dynamic_tabs@,
                        keys@.take(i),
                    ),
                    keys@[i]@,
                ),
            controls(final(self).app) == controls(old(self).app),
            final(self).app.config == old(self).app.config,
            final(self).devices == old(self).devices,
            final(self).common_log == old(self).common_log,
    {
        let ghost pages0 = self.dynamic_tabs@;
        let ghost titles0 = self.app.tabs.titles@;
        let ghost f = |d: Device2Tab| tab_of(d);
        let mut added: Vec<bool> = Vec::new();
        let mut i: usize = 0;
        assert(keys@.take(0) =~= Seq::<String>::empty());
        assert(self.dynamic_tabs@ =~= pages0 + added_pages(pages0, keys@.take(0)));
        assert(self.app.tabs.titles@ =~= titles0 + added_pages(pages0, keys@.take(0)).map_values(f));
        while i < keys.len()
            invariant
                i <= keys@.len(),
                self.dynamic_tabs@ == pages0 + added_pages(pages0, keys@.take(i as int)),
                self.app.tabs.titles@ == titles0 + added_pages(pages0, keys@.take(i as int)).map_values(f),
                f == (|d: Device2Tab| tab_of(d)),
                added@.len() == i,
                forall|k: int|
                    0 <= k < i ==> #[trigger] added@[k] == !has_page(
                        pages0 + added_pages(pages0, keys@.take(k)),
                        keys@[k]@,
                    ),
                controls(self.app) == controls(old(self).app),
                self.app.config == old(self).app.config,
                self.devices == old(self).devices,
                self.common_log == old(self).common_log,
            decreases keys@.len() - i,
        {
            let ghost before = added_pages(pages0, keys@.take(i as int));
            assert(keys@.take(i + 1).drop_last() =~= keys@.take(i as int));
            assert(keys@.take(i + 1).last() == keys@[i as int]);
            let present = self.has_device_page(&keys[i]);
            if !present {
                self.insert_device(Device2Tab::Dynamic(keys[i].clone()));
                assert(before.push(Device2Tab::Dynamic(keys@[i as int])).map_values(f) =~= before.map_values(
                    f,
                ).push(f(Device2Tab::Dynamic(keys@[i as int]))));
            }
            added.push(!present);
            i = i + 1;
        }
        assert(keys@.take(keys@.len() as int) =~= keys@);
        added
    }

    /// What the area under the tab bar shows for the selected tab.
    pub fn page(&self) -> (p: Page)
        ensures
            p == page_at(self.app.tabs.index),
    {
        let index = self.app.tabs.index;
        if index == 0 {
            Page::Colors
        } else if index == 1 {
            Page::Heatmaps
        } else if index == 2 {
            Page::ErrorLog
        } else {
            Page::Device(index)
        }
    }

    /// The topic whose data the tab at `index` shows.
    pub fn dynamic_tab_topic(&self, index: usize) -> (r: &str)
        ensures
            r@ == topic_at(self.dynamic_tabs@, index, self.app.config.mqtt_topic_base@),
    {
        if index >= 2 && index - 2 < self.dynamic_tabs.len() {
            match &self.dynamic_tabs[index - 2] {
                Device2Tab::Dynamic(name) => name.as_str(),
                Device2Tab::Fixed(name) => name.as_str(),
            }
        } else {
            self.app.config.mqtt_topic_base.as_str()
        }
    }
}

/// The tab bar shows two static tabs, then one tab per broker-fed page, in
/// the order of the pages.
pub open spec fn tabs_follow_pages(titles: Seq<Tab>, pages: Seq<Device2Tab>) -> bool {
    &&& titles.len() == pages.len() + 2
    &&& forall|i: int| 0 <= i < pages.len() ==> titles[i + 2] == #[trigger] tab_of(pages[i])
}

/// Whether a page is a fixed page of the given name.
pub open spec fn is_fixed_page(d: Device2Tab, name: Seq<char>) -> bool {
    d matches Device2Tab::Fixed(n) && n@ == name
}

proof fn lemma_filter_keeps_all<A>(s: Seq<A>, pred: spec_fn(A) -> bool)
    requires
        forall|i: int| 0 <= i < s.len() ==> pred(s[i]),
    ensures
        s.filter(pred) == s,
    decreases s.len(),
{
    reveal(Seq::filter);
    if s.len() > 0 {
        lemma_filter_keeps_all(s.drop_last(), pred);
        assert(s.drop_last().push(s.last()) =~= s);
    }
}

proof fn lemma_filter_tabs(p: Seq<Device2Tab>, n: Seq<char>)
    requires
        forall|i: int| 0 <= i < p.len() ==> !is_fixed_page(#[trigger] p[i], n),
    ensures
        without_name(p.map_values(|d: Device2Tab| tab_of(d)), n) == without_device_page(
            p,
            n,
        ).map_values(|d: Device2Tab| tab_of(d)),
    decreases p.len(),
{
    reveal(Seq::filter);
    let f = |d: Device2Tab| tab_of(d);
    if p.len() > 0 {
        lemma_filter_tabs(p.drop_last(), n);
        assert(p.map_values(f).drop_last() =~= p.drop_last().map_values(f));
        assert(!is_fixed_page(p[p.len() - 1], n));
        let rest = without_device_page(p.drop_last(), n);
        assert(rest.push(p.last()).map_values(f) =~= rest.map_values(f).push(f(p.last())));
    } else {
        assert(p.map_values(f) =~= Seq::<Tab>::empty());
        assert(without_device_page(p, n).map_values(f) =~= Seq::<Tab>::empty());
    }
}

/// Adding a page keeps the tab bar in step with the pages.
pub proof fn law_insert_keeps_tabs_in_step(
    titles: Seq<Tab>,
    pages: Seq<Device2Tab>,
    device: Device2Tab,
)
    requires
        tabs_follow_pages(titles, pages),
    ensures
        tabs_follow_pages(titles.push(tab_of(device)), pages.push(device)),
{
    let t2 = titles.push(tab_of(device));
    let p2 = pages.push(device);
    assert forall|i: int| 0 <= i < p2.len() implies t2[i + 2] == #[trigger] tab_of(p2[i]) by {
        if i < pages.len() {
            assert(tab_of(pages[i]) == titles[i + 2]);
        }
    }
}

/// Removing a device keeps the tab bar in step with the pages, when the
/// device's name is neither that of a static tab nor that of a fixed page.
pub proof fn law_remove_keeps_tabs_in_step(
    titles: Seq<Tab>,
    pages: Seq<Device2Tab>,
    name: Seq<char>,
)
    requires
        tabs_follow_pages(titles, pages),
        titles[0].name@ != name,
        titles[1].name@ != name,
        forall|i: int| 0 <= i < pages.len() ==> !is_fixed_page(#[trigger] pages[i], name),
    ensures
        tabs_follow_pages(without_name(titles, name), without_device_page(pages, name)),
{
    let f = |d: Device2Tab| tab_of(d);
    let head = titles.take(2);
    let tail = titles.skip(2);
    assert(tail =~= pages.map_values(f)) by {
        assert forall|i: int| 0 <= i < pages.len() implies tail[i] == pages.map_values(f)[i] by {
            assert(titles[i + 2] == tab_of(pages[i]));
        }
    }
    assert(titles =~= head + tail);
    Seq::filter_distributes_over_add(head, tail, name_differs(name));
    lemma_filter_keeps_all(head, name_differs(name));
    lemma_filter_tabs(pages, name);
    let kept = without_device_page(pages, name);
    let t2 = without_name(titles, name);
    assert(t2 == head + kept.map_values(f));
    assert forall|i: int| 0 <= i < kept.len() implies t2[i + 2] == #[trigger] tab_of(kept[i]) by {
        assert(t2[i + 2] == kept.map_values(f)[i]);
    }
}

/// Removing a device undoes adding its page, when no tab and no page had
/// its name before.
pub proof fn law_remove_undoes_insert(
    titles: Seq<Tab>,
    pages: Seq<Device2Tab>,
    name: String,
)
    requires
        forall|i: int| 0 <= i < titles.len() ==> (#[trigger] titles[i]).name@ != name@,
        forall|i: int| 0 <= i < pages.len() ==> !is_device_page(#[trigger] pages[i], name@),
    ensures
        without_name(titles.push(tab_of(Device2Tab::Dynamic(name))), name@) == titles,
        without_device_page(pages.push(Device2Tab::Dynamic(name)), name@) == pages,
{
    let keep_tab = name_differs(name@);
    let keep_page = not_device_page(name@);
    titles.lemma_filter_push(tab_of(Device2Tab::Dynamic(name)), keep_tab);
    pages.lemma_filter_push(Device2Tab::Dynamic(name), keep_page);
    lemma_filter_keeps_all(titles, keep_tab);
    lemma_filter_keeps_all(pages, keep_page);
}

/// After pages are added for some keys, every one of those keys has its
/// device page.
pub proof fn law_added_pages_cover_keys(pages: Seq<Device2Tab>, keys: Seq<String>)
    ensures
        forall|k: int|
            0 <= k < keys.len() ==> has_page(pages + added_pages(pages, keys), #[trigger] keys[k]@),
    decreases keys.len(),
{
    if keys.len() > 0 {
        let init = keys.drop_last();
        law_added_pages_cover_keys(pages, init);
        let before = added_pages(pages, init);
        let after = added_pages(pages, keys);
        assert forall|k: int| 0 <= k < keys.len() implies has_page(
            pages + after,
            #[trigger] keys[k]@,
        ) by {
            if k < keys.len() - 1 {
                assert(init[k] == keys[k]);
                assert(has_page(pages + before, init[k]@));
                let j = choose|j: int|
                    0 <= j < (pages + before).len() && is_device_page(
                        #[trigger] (pages + before)[j],
                        init[k]@,
                    );
                assert((pages + after)[j] == (pages + before)[j]);
            } else if !has_page(pages + before, keys.last()@) {
                let j = (pages + before).len() as int;
                assert((pages + after)[j] == Device2Tab::Dynamic(keys.last()));
            } else {
                let j = choose|j: int|
                    0 <= j < (pages + before).len() && is_device_page(
                        #[trigger] (pages + before)[j],
                        keys.last()@,
                    );
                assert(after == before);
                assert((pages + after)[j] == (pages + before)[j]);
            }
        }
    }
}

/// Adding pages for devices keeps the tab bar in step with the pages.
pub proof fn law_added_pages_keep_tabs_in_step(
    titles: Seq<Tab>,
    pages: Seq<Device2Tab>,
    added: Seq<Device2Tab>,
)
    requires
        tabs_follow_pages(titles, pages),
    ensures
        tabs_follow_pages(
            titles + added.map_values(|d: Device2Tab| tab_of(d)),
            pages + added,
        ),
{
    let t2 = titles + added.map_values(|d: Device2Tab| tab_of(d));
    let p2 = pages + added;
    assert forall|i: int| 0 <= i < p2.len() implies t2[i + 2] == #[trigger] tab_of(p2[i]) by {
        if i < pages.len() {
            assert(tab_of(pages[i]) == titles[i + 2]);
        } else {
            assert(p2[i] == added[i - pages.len()]);
        }
    }
}

/// While the tab bar is in step with the pages, a selected tab past the two
/// static ones shows the data of the topic written on it.
pub proof fn law_selected_tab_shows_its_topic(
    titles: Seq<Tab>,
    pages: Seq<Device2Tab>,
    index: usize,
    base: Seq<char>,
)
    requires
        tabs_follow_pages(titles, pages),
        2 <= index < titles.len(),
    ensures
        topic_at(pages, index, base) == titles[index as int].name@,
{
    assert(titles[(index - 2) + 2] == tab_of(pages[index - 2]));
}

} // verus!

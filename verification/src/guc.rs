//! Configuration parameters ("GUCs") of the extension, and how their values are read.

use crate::text;
use vstd::prelude::*;

verus! {

// ---------------------------------------------------------------------------
// Slot filters: the value of `synchronize_slot_names`
// ---------------------------------------------------------------------------

/// The kind of filter to apply when matching slots on the primary.
#[derive(Debug, Clone, Copy, PartialEq, Eq, Structural)]
pub enum FailoverSlotFilterKey {
    /// Exact slot name match.
    Name,
    /// SQL `LIKE` pattern match on slot name.
    NameLike,
    /// Exact output-plugin name match.
    Plugin,
}

/// A single parsed filter entry of `synchronize_slot_names`.
#[derive(Debug)]
pub struct FailoverSlotFilter {
    pub key: FailoverSlotFilterKey,
    pub val: String,
}

impl Clone for FailoverSlotFilter {
    fn clone(&self) -> (filter: FailoverSlotFilter)
        ensures
            filter == *self,
    {
        FailoverSlotFilter { key: self.key, val: self.val.clone() }
    }
}

/// The contents of a [`FailoverSlotFilter`].
pub struct FilterView {
    pub key: FailoverSlotFilterKey,
    pub val: Seq<char>,
}

impl View for FailoverSlotFilter {
    type V = FilterView;

    open spec fn view(&self) -> FilterView {
        FilterView { key: self.key, val: self.val@ }
    }
}

/// The contents of a list of filters.
pub open spec fn filter_views(filters: Seq<FailoverSlotFilter>) -> Seq<FilterView> {
    filters.map_values(|f: FailoverSlotFilter| f@)
}

/// What one comma-separated entry of `synchronize_slot_names` says.
pub enum FilterEntry {
    /// Nothing but white space.
    Blank,
    /// A key that is not recognised.
    UnknownKey(String),
    /// A filter.
    Filter(FailoverSlotFilter),
}

/// The contents of a [`FilterEntry`].
pub enum FilterEntryView {
    Blank,
    UnknownKey(Seq<char>),
    Filter(FilterView),
}

impl View for FilterEntry {
    type V = FilterEntryView;

    open spec fn view(&self) -> FilterEntryView {
        match *self {
            FilterEntry::Blank => FilterEntryView::Blank,
            FilterEntry::UnknownKey(key) => FilterEntryView::UnknownKey(key@),
            FilterEntry::Filter(f) => FilterEntryView::Filter(f@),
        }
    }
}

/// How a filter key is written.
pub open spec fn key_text(key: FailoverSlotFilterKey) -> Seq<char> {
    match key {
        FailoverSlotFilterKey::Name => "name"@,
        FailoverSlotFilterKey::NameLike => "name_like"@,
        FailoverSlotFilterKey::Plugin => "plugin"@,
    }
}

/// The key written as `s`, if it is one.
pub open spec fn key_of_text(s: Seq<char>) -> Option<FailoverSlotFilterKey> {
    if s == key_text(FailoverSlotFilterKey::Name) {
        Some(FailoverSlotFilterKey::Name)
    } else if s == key_text(FailoverSlotFilterKey::NameLike) {
        Some(FailoverSlotFilterKey::NameLike)
    } else if s == key_text(FailoverSlotFilterKey::Plugin) {
        Some(FailoverSlotFilterKey::Plugin)
    } else {
        None
    }
}

/// An entry is `key:value`, split at its first colon, or a bare word, which is an exact slot
/// name. White space around the entry, its key and its value does not count.
pub open spec fn entry_of_text(s: Seq<char>) -> FilterEntryView {
    let entry = text::trimmed(s);
    if entry.len() == 0 {
        FilterEntryView::Blank
    } else {
        match text::split_at_first(entry, ':') {
            Some((key, val)) => match key_of_text(text::trimmed(key)) {
                Some(key) => FilterEntryView::Filter(FilterView { key, val: text::trimmed(val) }),
                None => FilterEntryView::UnknownKey(text::trimmed(key)),
            },
            None => FilterEntryView::Filter(
                FilterView { key: FailoverSlotFilterKey::Name, val: entry },
            ),
        }
    }
}

/// The filters among some entries, in order.
pub open spec fn filters_of_entries(entries: Seq<Seq<char>>) -> Seq<FilterView>
    decreases entries.len(),
{
    if entries.len() == 0 {
        Seq::empty()
    } else {
        let before = filters_of_entries(entries.drop_last());
        match entry_of_text(entries.last()) {
            FilterEntryView::Filter(f) => before.push(f),
            _ => before,
        }
    }
}

/// The keys among some entries that are not recognised, in order.
pub open spec fn unknown_keys_of_entries(entries: Seq<Seq<char>>) -> Seq<Seq<char>>
    decreases entries.len(),
{
    if entries.len() == 0 {
        Seq::empty()
    } else {
        let before = unknown_keys_of_entries(entries.drop_last());
        match entry_of_text(entries.last()) {
            FilterEntryView::UnknownKey(key) => before.push(key),
            _ => before,
        }
    }
}

/// The comma-separated entries of a list value.
pub open spec fn list_entries(raw: Seq<char>) -> Seq<Seq<char>> {
    text::pieces(text::trimmed(raw), ',')
}

/// The filters that a value of `synchronize_slot_names` stands for.
pub open spec fn filters_of_text(raw: Seq<char>) -> Seq<FilterView> {
    filters_of_entries(list_entries(raw))
}

/// Read one entry of `synchronize_slot_names`.
fn parse_filter_entry(s: &str) -> (entry: FilterEntry)
    ensures
        entry@ == entry_of_text(s@),
{
    let part: &str = text::trim(s);
    if part.is_empty() {
        return FilterEntry::Blank;
    }
    match text::split_once(part, ':') {
        Some((key_str, val_str)) => {
            let key_str: &str = text::trim(key_str);
            let val_str: &str = text::trim(val_str);
            let key: FailoverSlotFilterKey = if text::same_text(key_str, "name") {
                FailoverSlotFilterKey::Name
            } else if text::same_text(key_str, "name_like") {
                FailoverSlotFilterKey::NameLike
            } else if text::same_text(key_str, "plugin") {
                FailoverSlotFilterKey::Plugin
            } else {
                return FilterEntry::UnknownKey(key_str.to_owned());
            };
            FilterEntry::Filter(FailoverSlotFilter { key, val: val_str.to_owned() })
        },
        None => FilterEntry::Filter(
            FailoverSlotFilter { key: FailoverSlotFilterKey::Name, val: part.to_owned() },
        ),
    }
}

/// Parse a value of `synchronize_slot_names` into a list of filters.
///
/// Entries are separated by commas. Recognised keys are `name`, `name_like` and `plugin`;
/// entries with another key are left out.
pub fn parse_synchronize_slot_names(raw: &str) -> (filters: Vec<FailoverSlotFilter>)
    ensures
        filter_views(filters@) == filters_of_text(raw@),
{
    let entries: Vec<&str> = text::split(text::trim(raw), ',');
    let ghost all = list_entries(raw@);
    let mut filters: Vec<FailoverSlotFilter> = Vec::new();
    let mut i: usize = 0;
    assert(filter_views(filters@) =~= filters_of_entries(all.take(0)));
    while i < entries.len()
        invariant
            text::text_views(entries@) == all,
            i <= entries@.len(),
            filter_views(filters@) == filters_of_entries(all.take(i as int)),
        decreases entries@.len() - i,
    {
        let ghost before = filter_views(filters@);
        proof {
            assert(all[i as int] == entries@[i as int]@);
            assert(all.take(i + 1).drop_last() =~= all.take(i as int));
        }
        match parse_filter_entry(entries[i]) {
            FilterEntry::Filter(f) => {
                let ghost fv = f@;
                filters.push(f);
                assert(filter_views(filters@) =~= before.push(fv));
            },
            _ => {},
        }
        i = i + 1;
    }
    assert(all.take(all.len() as int) =~= all);
    filters
}

/// The keys of a value of `synchronize_slot_names` that are not recognised: the operator is
/// warned of them.
pub fn unknown_synchronize_slot_names_keys(raw: &str) -> (keys: Vec<String>)
    ensures
        keys@.map_values(|k: String| k@) == unknown_keys_of_entries(list_entries(raw@)),
{
    let entries: Vec<&str> = text::split(text::trim(raw), ',');
    let ghost all = list_entries(raw@);
    let mut keys: Vec<String> = Vec::new();
    let mut i: usize = 0;
    assert(keys@.map_values(|k: String| k@) =~= unknown_keys_of_entries(all.take(0)));
    while i < entries.len()
        invariant
            text::text_views(entries@) == all,
            i <= entries@.len(),
            keys@.map_values(|k: String| k@) == unknown_keys_of_entries(all.take(i as int)),
        decreases entries@.len() - i,
    {
        let ghost before = keys@.map_values(|k: String| k@);
        proof {
            assert(all[i as int] == entries@[i as int]@);
            assert(all.take(i + 1).drop_last() =~= all.take(i as int));
        }
        match parse_filter_entry(entries[i]) {
            FilterEntry::UnknownKey(key) => {
                let ghost kv = key@;
                keys.push(key);
                assert(keys@.map_values(|k: String| k@) =~= before.push(kv));
            },
            _ => {},
        }
        i = i + 1;
    }
    assert(all.take(all.len() as int) =~= all);
    keys
}

// ---------------------------------------------------------------------------
// Slot names: the value of `standby_slot_names`
// ---------------------------------------------------------------------------

/// The contents of a list of names.
pub open spec fn name_views(names: Seq<String>) -> Seq<Seq<char>> {
    names.map_values(|n: String| n@)
}

/// The entries that are not blank, without the white space around them, in order.
pub open spec fn names_of_entries(entries: Seq<Seq<char>>) -> Seq<Seq<char>>
    decreases entries.len(),
{
    if entries.len() == 0 {
        Seq::empty()
    } else {
        let before = names_of_entries(entries.drop_last());
        let name = text::trimmed(entries.last());
        if name.len() > 0 {
            before.push(name)
        } else {
            before
        }
    }
}

/// The slot names that a value of `standby_slot_names` stands for.
pub open spec fn names_of_text(raw: Seq<char>) -> Seq<Seq<char>> {
    names_of_entries(list_entries(raw))
}

/// Parse a value of `standby_slot_names` into a list of slot names.
pub fn parse_standby_slot_names(raw: &str) -> (names: Vec<String>)
    ensures
        name_views(names@) == names_of_text(raw@),
{
    let entries: Vec<&str> = text::split(text::trim(raw), ',');
    let ghost all = list_entries(raw@);
    let mut names: Vec<String> = Vec::new();
    let mut i: usize = 0;
    assert(name_views(names@) =~= names_of_entries(all.take(0)));
    while i < entries.len()
        invariant
            text::text_views(entries@) == all,
            i <= entries@.len(),
            name_views(names@) == names_of_entries(all.take(i as int)),
        decreases entries@.len() - i,
    {
        let ghost before = name_views(names@);
        proof {
            assert(all[i as int] == entries@[i as int]@);
            assert(all.take(i + 1).drop_last() =~= all.take(i as int));
        }
        let name: &str = text::trim(entries[i]);
        if !name.is_empty() {
            names.push(name.to_owned());
            assert(name_views(names@) =~= before.push(name@));
        }
        i = i + 1;
    }
    assert(all.take(all.len() as int) =~= all);
    names
}

/// Whether `name` is one of `names`.
pub fn contains_name(names: &Vec<String>, name: &String) -> (found: bool)
    ensures
        found == name_views(names@).contains(name@),
{
    let mut i: usize = 0;
    while i < names.len()
        invariant
            i <= names@.len(),
            forall|j: int| 0 <= j < i ==> (#[trigger] names@[j])@ != name@,
        decreases names@.len() - i,
    {
        if names[i] == *name {
            assert(name_views(names@)[i as int] == name@);
            return true;
        }
        i = i + 1;
    }
    proof {
        if name_views(names@).contains(name@) {
            let j = choose|j: int|
                0 <= j < name_views(names@).len() && name_views(names@)[j] == name@;
            assert(names@[j]@ == name@);
        }
    }
    false
}

// ---------------------------------------------------------------------------
// Parameter definitions
// ---------------------------------------------------------------------------

/// The version of the extension.
pub const VERSION: &'static str = "0.1.0";

/// The value of `standby_slots_min_confirmed` that stands for all named slots.
pub const CONFIRM_ALL: i32 = -1;

/// The default of `standby_slot_names`: no standby has to confirm.
pub const DEFAULT_STANDBY_SLOT_NAMES: &'static str = "";

/// The default of `synchronize_slot_names`: slots of any name.
pub const DEFAULT_SYNCHRONIZE_SLOT_NAMES: &'static str = "name_like:%%";

/// The default of `drop_extra_slots`.
pub const DEFAULT_DROP_EXTRA_SLOTS: bool = true;

/// The default of `primary_dsn`: that of the WAL receiver is used.
pub const DEFAULT_PRIMARY_DSN: &'static str = "";

/// The default of `worker_nap_time`, in milliseconds.
pub const DEFAULT_WORKER_NAP_TIME: i32 = 60_000;

/// The database used for connections to the primary where none is configured.
pub const DEFAULT_MAINTENANCE_DB: &'static str = "postgres";

/// When a parameter may change.
#[derive(Debug, Clone, Copy, PartialEq, Eq, Structural)]
pub enum GucContext {
    /// Never: the parameter is read-only.
    Internal,
    /// On a reload of the configuration.
    Sighup,
}

/// The type of a parameter with its default and, for numbers, its bounds.
#[derive(Debug, Clone, Copy)]
pub enum GucValue {
    Text(&'static str),
    Integer { default: i32, min: i32, max: i32 },
    Boolean(bool),
}

/// The parameters of the extension.
#[derive(Debug, Clone, Copy, PartialEq, Eq, Structural)]
pub enum GucId {
    Version,
    StandbySlotNames,
    StandbySlotsMinConfirmed,
    SynchronizeSlotNames,
    DropExtraSlots,
    PrimaryDsn,
    WorkerNapTime,
    MaintenanceDb,
}

/// All that the server is told of a parameter.
#[derive(Debug, Clone, Copy)]
pub struct GucDefinition {
    pub id: GucId,
    pub name: &'static str,
    pub short_description: &'static str,
    pub long_description: &'static str,
    pub value: GucValue,
    pub context: GucContext,
    pub superuser_only: bool,
    pub unit_ms: bool,
}

/// The parameters in the order of their registration.
pub open spec fn guc_table() -> Seq<GucDefinition> {
    seq![
        GucDefinition {
            id: GucId::Version,
            name: "pg_failover_slots_rs.version",
            short_description: "pg_failover_slots_rs extension version",
            long_description: "Read-only version of the pg_failover_slots_rs extension.",
            value: GucValue::Text(VERSION),
            context: GucContext::Internal,
            superuser_only: false,
            unit_ms: false,
        },
        GucDefinition {
            id: GucId::StandbySlotNames,
            name: "pg_failover_slots_rs.standby_slot_names",
            short_description: "Physical replication slot names that must confirm before logical data is sent",
            long_description: "Comma-separated list of physical slot names. Primary-side setting.",
            value: GucValue::Text(DEFAULT_STANDBY_SLOT_NAMES),
            context: GucContext::Sighup,
            superuser_only: false,
            unit_ms: false,
        },
        GucDefinition {
            id: GucId::StandbySlotsMinConfirmed,
            name: "pg_failover_slots_rs.standby_slots_min_confirmed",
            short_description: "How many standby slots must confirm before logical data is sent",
            long_description: "-1 means all slots must confirm, 0 disables the wait. Range: [-1, 100].",
            value: GucValue::Integer { default: CONFIRM_ALL, min: CONFIRM_ALL, max: 100 },
            context: GucContext::Sighup,
            superuser_only: false,
            unit_ms: false,
        },
        GucDefinition {
            id: GucId::SynchronizeSlotNames,
            name: "pg_failover_slots_rs.synchronize_slot_names",
            short_description: "Slot filters for which slots to synchronize to standby",
            long_description: "Comma-separated key:value pairs. Keys: name, name_like, plugin.",
            value: GucValue::Text(DEFAULT_SYNCHRONIZE_SLOT_NAMES),
            context: GucContext::Sighup,
            superuser_only: false,
            unit_ms: false,
        },
        GucDefinition {
            id: GucId::DropExtraSlots,
            name: "pg_failover_slots_rs.drop_extra_slots",
            short_description: "Whether to drop local logical slots not found on primary",
            long_description: "When true, logical slots on the standby not on the primary will be dropped.",
            value: GucValue::Boolean(DEFAULT_DROP_EXTRA_SLOTS),
            context: GucContext::Sighup,
            superuser_only: false,
            unit_ms: false,
        },
        GucDefinition {
            id: GucId::PrimaryDsn,
            name: "pg_failover_slots_rs.primary_dsn",
            short_description: "Connection string for connecting to the primary",
            long_description: "If empty, falls back to primary_conninfo from the WAL receiver. Superuser-only.",
            value: GucValue::Text(DEFAULT_PRIMARY_DSN),
            context: GucContext::Sighup,
            superuser_only: true,
            unit_ms: false,
        },
        GucDefinition {
            id: GucId::WorkerNapTime,
            name: "pg_failover_slots_rs.worker_nap_time",
            short_description: "Sleep time between synchronization cycles (ms)",
            long_description: "How long the background worker sleeps between slot sync cycles, in milliseconds.",
            value: GucValue::Integer {
                default: DEFAULT_WORKER_NAP_TIME,
                min: 1_000,
                max: i32::MAX,
            },
            context: GucContext::Sighup,
            superuser_only: true,
            unit_ms: true,
        },
        GucDefinition {
            id: GucId::MaintenanceDb,
            name: "pg_failover_slots_rs.maintenance_db",
            short_description: "Database to use for connections to the primary",
            long_description: "Name of the database to connect to when querying the primary.",
            value: GucValue::Text(DEFAULT_MAINTENANCE_DB),
            context: GucContext::Sighup,
            superuser_only: true,
            unit_ms: false,
        },
    ]
}

/// The definitions of all parameters, to be registered when the extension is loaded.
pub fn register_gucs() -> (definitions: Vec<GucDefinition>)
    ensures
        definitions@ == guc_table(),
{
    let definitions: Vec<GucDefinition> = vec![
        GucDefinition {
            id: GucId::Version,
            name: "pg_failover_slots_rs.version",
            short_description: "pg_failover_slots_rs extension version",
            long_description: "Read-only version of the pg_failover_slots_rs extension.",
            value: GucValue::Text(VERSION),
            context: GucContext::Internal,
            superuser_only: false,
            unit_ms: false,
        },
        GucDefinition {
            id: GucId::StandbySlotNames,
            name: "pg_failover_slots_rs.standby_slot_names",
            short_description: "Physical replication slot names that must confirm before logical data is sent",
            long_description: "Comma-separated list of physical slot names. Primary-side setting.",
            value: GucValue::Text(DEFAULT_STANDBY_SLOT_NAMES),
            context: GucContext::Sighup,
            superuser_only: false,
            unit_ms: false,
        },
        GucDefinition {
            id: GucId::StandbySlotsMinConfirmed,
            name: "pg_failover_slots_rs.standby_slots_min_confirmed",
            short_description: "How many standby slots must confirm before logical data is sent",
            long_description: "-1 means all slots must confirm, 0 disables the wait. Range: [-1, 100].",
            value: GucValue::Integer { default: CONFIRM_ALL, min: CONFIRM_ALL, max: 100 },
            context: GucContext::Sighup,
            superuser_only: false,
            unit_ms: false,
        },
        GucDefinition {
            id: GucId::SynchronizeSlotNames,
            name: "pg_failover_slots_rs.synchronize_slot_names",
            short_description: "Slot filters for which slots to synchronize to standby",
            long_description: "Comma-separated key:value pairs. Keys: name, name_like, plugin.",
            value: GucValue::Text(DEFAULT_SYNCHRONIZE_SLOT_NAMES),
            context: GucContext::Sighup,
            superuser_only: false,
            unit_ms: false,
        },
        GucDefinition {
            id: GucId::DropExtraSlots,
            name: "pg_failover_slots_rs.drop_extra_slots",
            short_description: "Whether to drop local logical slots not found on primary",
            long_description: "When true, logical slots on the standby not on the primary will be dropped.",
            value: GucValue::Boolean(DEFAULT_DROP_EXTRA_SLOTS),
            context: GucContext::Sighup,
            superuser_only: false,
            unit_ms: false,
        },
        GucDefinition {
            id: GucId::PrimaryDsn,
            name: "pg_failover_slots_rs.primary_dsn",
            short_description: "Connection string for connecting to the primary",
            long_description: "If empty, falls back to primary_conninfo from the WAL receiver. Superuser-only.",
            value: GucValue::Text(DEFAULT_PRIMARY_DSN),
            context: GucContext::Sighup,
            superuser_only: true,
            unit_ms: false,
        },
        GucDefinition {
            id: GucId::WorkerNapTime,
            name: "pg_failover_slots_rs.worker_nap_time",
            short_description: "Sleep time between synchronization cycles (ms)",
            long_description: "How long the background worker sleeps between slot sync cycles, in milliseconds.",
            value: GucValue::Integer {
                default: DEFAULT_WORKER_NAP_TIME,
                min: 1_000,
                max: i32::MAX,
            },
            context: GucContext::Sighup,
            superuser_only: true,
            unit_ms: true,
        },
        GucDefinition {
            id: GucId::MaintenanceDb,
            name: "pg_failover_slots_rs.maintenance_db",
            short_description: "Database to use for connections to the primary",
            long_description: "Name of the database to connect to when querying the primary.",
            value: GucValue::Text(DEFAULT_MAINTENANCE_DB),
            context: GucContext::Sighup,
            superuser_only: true,
            unit_ms: false,
        },
    ];
    assert(definitions@ =~= guc_table());
    definitions
}

// ---------------------------------------------------------------------------
// Parameter values
// ---------------------------------------------------------------------------

/// The values of the parameters at one moment. A text parameter may be unset.
#[derive(Debug)]
pub struct Settings {
    pub version: Option<String>,
    pub standby_slot_names: Option<String>,
    pub standby_slots_min_confirmed: i32,
    pub synchronize_slot_names: Option<String>,
    pub drop_extra_slots: bool,
    pub primary_dsn: Option<String>,
    pub worker_nap_time: i32,
    pub maintenance_db: Option<String>,
}

/// The text of a parameter: empty where it is unset.
pub open spec fn guc_text(setting: Option<String>) -> Seq<char> {
    match setting {
        Some(s) => s@,
        None => Seq::empty(),
    }
}

impl Default for Settings {
    /// The values of the parameters where nothing is configured.
    fn default() -> (settings: Settings)
        ensures
            settings.is_default(),
    {
        Settings {
            version: Some(VERSION.to_owned()),
            standby_slot_names: Some(DEFAULT_STANDBY_SLOT_NAMES.to_owned()),
            standby_slots_min_confirmed: CONFIRM_ALL,
            synchronize_slot_names: Some(DEFAULT_SYNCHRONIZE_SLOT_NAMES.to_owned()),
            drop_extra_slots: DEFAULT_DROP_EXTRA_SLOTS,
            primary_dsn: Some(DEFAULT_PRIMARY_DSN.to_owned()),
            worker_nap_time: DEFAULT_WORKER_NAP_TIME,
            maintenance_db: Some(DEFAULT_MAINTENANCE_DB.to_owned()),
        }
    }
}

impl Settings {
    /// Nothing is configured.
    pub open spec fn is_default(self) -> bool {
        &&& self.version matches Some(s) && s@ == VERSION@
        &&& self.standby_slot_names matches Some(s) && s@ == DEFAULT_STANDBY_SLOT_NAMES@
        &&& self.standby_slots_min_confirmed == CONFIRM_ALL
        &&& self.synchronize_slot_names matches Some(s) && s@ == DEFAULT_SYNCHRONIZE_SLOT_NAMES@
        &&& self.drop_extra_slots == DEFAULT_DROP_EXTRA_SLOTS
        &&& self.primary_dsn matches Some(s) && s@ == DEFAULT_PRIMARY_DSN@
        &&& self.worker_nap_time == DEFAULT_WORKER_NAP_TIME
        &&& self.maintenance_db matches Some(s) && s@ == DEFAULT_MAINTENANCE_DB@
    }

    /// A parameter has the value that its definition gives as the default.
    pub open spec fn has_default(self, definition: GucDefinition) -> bool {
        match (definition.id, definition.value) {
            (GucId::Version, GucValue::Text(d)) => guc_text(self.version) == d@,
            (GucId::StandbySlotNames, GucValue::Text(d)) => guc_text(self.standby_slot_names)
                == d@,
            (GucId::StandbySlotsMinConfirmed, GucValue::Integer { default, .. }) =>
                self.standby_slots_min_confirmed == default,
            (GucId::SynchronizeSlotNames, GucValue::Text(d)) => guc_text(
                self.synchronize_slot_names,
            ) == d@,
            (GucId::DropExtraSlots, GucValue::Boolean(d)) => self.drop_extra_slots == d,
            (GucId::PrimaryDsn, GucValue::Text(d)) => guc_text(self.primary_dsn) == d@,
            (GucId::WorkerNapTime, GucValue::Integer { default, .. }) => self.worker_nap_time
                == default,
            (GucId::MaintenanceDb, GucValue::Text(d)) => guc_text(self.maintenance_db) == d@,
            _ => false,
        }
    }

    /// The slot names that must confirm.
    pub open spec fn standby_names(self) -> Seq<Seq<char>> {
        names_of_text(guc_text(self.standby_slot_names))
    }

    /// The filters for slots to synchronize.
    pub open spec fn filters(self) -> Seq<FilterView> {
        filters_of_text(guc_text(self.synchronize_slot_names))
    }

    /// The database for connections to the primary.
    pub open spec fn database(self) -> Seq<char> {
        if guc_text(self.maintenance_db).len() == 0 {
            DEFAULT_MAINTENANCE_DB@
        } else {
            guc_text(self.maintenance_db)
        }
    }
}

/// The text of a parameter, empty where it is unset.
pub fn get_guc_string(setting: &Option<String>) -> (s: String)
    ensures
        s@ == guc_text(*setting),
{
    match setting {
        Some(s) => s.clone(),
        None => String::new(),
    }
}

/// Get `standby_slot_names` as a parsed list of slot names.
pub fn get_standby_slot_names(settings: &Settings) -> (names: Vec<String>)
    ensures
        name_views(names@) == settings.standby_names(),
{
    parse_standby_slot_names(get_guc_string(&settings.standby_slot_names).as_str())
}

/// Get the `standby_slots_min_confirmed` value.
pub fn get_standby_slots_min_confirmed(settings: &Settings) -> (n: i32)
    ensures
        n == settings.standby_slots_min_confirmed,
{
    settings.standby_slots_min_confirmed
}

/// Get `synchronize_slot_names` as a parsed list of filters.
pub fn get_synchronize_slot_names(settings: &Settings) -> (filters: Vec<FailoverSlotFilter>)
    ensures
        filter_views(filters@) == settings.filters(),
{
    parse_synchronize_slot_names(get_guc_string(&settings.synchronize_slot_names).as_str())
}

/// Whether to drop slots not found on the primary.
pub fn get_drop_extra_slots(settings: &Settings) -> (drop_extra: bool)
    ensures
        drop_extra == settings.drop_extra_slots,
{
    settings.drop_extra_slots
}

/// Get the DSN for connecting to the primary. May be empty.
pub fn get_primary_dsn(settings: &Settings) -> (dsn: String)
    ensures
        dsn@ == guc_text(settings.primary_dsn),
{
    get_guc_string(&settings.primary_dsn)
}

/// Get the worker nap time in milliseconds.
pub fn get_worker_nap_time(settings: &Settings) -> (ms: i32)
    ensures
        ms == settings.worker_nap_time,
{
    settings.worker_nap_time
}

/// Get the maintenance database name, `postgres` where none is configured.
pub fn get_maintenance_db(settings: &Settings) -> (db: String)
    ensures
        db@ == settings.database(),
{
    let val: String = get_guc_string(&settings.maintenance_db);
    if val.as_str().is_empty() {
        DEFAULT_MAINTENANCE_DB.to_owned()
    } else {
        val
    }
}

} // verus!

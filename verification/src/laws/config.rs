//! The configuration parameters.

use crate::guc::{
    guc_table, FailoverSlotFilterKey, FilterView, GucContext, GucDefinition, GucId, GucValue,
    Settings, VERSION,
};
use crate::laws::lists::{blank_list_is_empty, filter_round_trip, filter_text};
use vstd::prelude::*;

verus! {

/// There is a definition of the parameter.
pub open spec fn is_defined(id: GucId) -> bool {
    exists|i: int| 0 <= i < guc_table().len() && #[trigger] guc_table()[i].id == id
}

/// Every parameter is defined once, under a name of its own with the extension's prefix.
pub proof fn parameters_are_defined_once()
    ensures
        forall|i: int, j: int|
            0 <= i < j < guc_table().len() ==> #[trigger] guc_table()[i].id
                != #[trigger] guc_table()[j].id && guc_table()[i].name@ != guc_table()[j].name@,
        forall|id: GucId| #[trigger] is_defined(id),
        forall|i: int|
            0 <= i < guc_table().len() ==> (#[trigger] guc_table()[i]).name@.len() >= 21
                && guc_table()[i].name@.take(21) == "pg_failover_slots_rs."@,
{
    reveal_strlit("pg_failover_slots_rs.");
    reveal_strlit("pg_failover_slots_rs.version");
    reveal_strlit("pg_failover_slots_rs.standby_slot_names");
    reveal_strlit("pg_failover_slots_rs.standby_slots_min_confirmed");
    reveal_strlit("pg_failover_slots_rs.synchronize_slot_names");
    reveal_strlit("pg_failover_slots_rs.drop_extra_slots");
    reveal_strlit("pg_failover_slots_rs.primary_dsn");
    reveal_strlit("pg_failover_slots_rs.worker_nap_time");
    reveal_strlit("pg_failover_slots_rs.maintenance_db");
    let table = guc_table();
    assert forall|i: int| 0 <= i < table.len() implies (#[trigger] table[i]).name@.len() >= 21
        && table[i].name@.take(21) == "pg_failover_slots_rs."@ by {
        assert(table[i].name@.take(21) =~= "pg_failover_slots_rs."@);
    }
    assert forall|id: GucId| #[trigger] is_defined(id) by {
        let i: int = match id {
            GucId::Version => 0,
            GucId::StandbySlotNames => 1,
            GucId::StandbySlotsMinConfirmed => 2,
            GucId::SynchronizeSlotNames => 3,
            GucId::DropExtraSlots => 4,
            GucId::PrimaryDsn => 5,
            GucId::WorkerNapTime => 6,
            GucId::MaintenanceDb => 7,
        };
        assert(table[i].id == id);
    }
}

/// Where nothing is configured, every parameter has the default of its definition, and the
/// defaults lie within the bounds.
pub proof fn defaults_are_as_defined(settings: Settings)
    requires
        settings.is_default(),
    ensures
        forall|i: int|
            0 <= i < guc_table().len() ==> settings.has_default(#[trigger] guc_table()[i]),
        forall|i: int|
            0 <= i < guc_table().len() ==> ((#[trigger] guc_table()[i]).value
                matches GucValue::Integer { default, min, max } ==> min <= default <= max),
{
}

/// Only the version is read-only; all other parameters change on a reload.
pub proof fn only_version_is_read_only()
    ensures
        forall|i: int|
            0 <= i < guc_table().len() ==> ((#[trigger] guc_table()[i]).context
                == GucContext::Internal <==> guc_table()[i].id == GucId::Version),
{
}

/// What the server is told of each parameter: its name behind the prefix, its default and the
/// bounds of a number, whether it is for superusers, and whether it counts milliseconds.
pub open spec fn is_as_documented(definition: GucDefinition) -> bool {
    let name = definition.name@.skip(21);
    let value = definition.value;
    let superuser_only = definition.superuser_only;
    match definition.id {
        GucId::Version => name == "version"@ && value == GucValue::Text(VERSION)
            && !superuser_only,
        GucId::StandbySlotNames => name == "standby_slot_names"@ && value == GucValue::Text("")
            && !superuser_only,
        GucId::StandbySlotsMinConfirmed => name == "standby_slots_min_confirmed"@ && value == (
        GucValue::Integer { default: -1 as i32, min: -1 as i32, max: 100 }) && !superuser_only,
        GucId::SynchronizeSlotNames => name == "synchronize_slot_names"@ && value
            == GucValue::Text("name_like:%%") && !superuser_only,
        GucId::DropExtraSlots => name == "drop_extra_slots"@ && value == GucValue::Boolean(true)
            && !superuser_only,
        GucId::PrimaryDsn => name == "primary_dsn"@ && value == GucValue::Text("")
            && superuser_only,
        GucId::WorkerNapTime => name == "worker_nap_time"@ && value == (GucValue::Integer {
            default: 60_000,
            min: 1_000,
            max: 0x7fff_ffff,
        }) && superuser_only,
        GucId::MaintenanceDb => name == "maintenance_db"@ && value == GucValue::Text("postgres")
            && superuser_only,
    }
}

/// Every parameter is as documented, and only the nap time counts milliseconds.
pub proof fn parameters_are_as_documented()
    ensures
        forall|i: int| 0 <= i < guc_table().len() ==> is_as_documented(#[trigger] guc_table()[i]),
        forall|i: int|
            0 <= i < guc_table().len() ==> ((#[trigger] guc_table()[i]).unit_ms <==> guc_table()[i].id
                == GucId::WorkerNapTime),
        VERSION@ == "0.1.0"@,
{
    reveal_strlit("pg_failover_slots_rs.version");
    reveal_strlit("pg_failover_slots_rs.standby_slot_names");
    reveal_strlit("pg_failover_slots_rs.standby_slots_min_confirmed");
    reveal_strlit("pg_failover_slots_rs.synchronize_slot_names");
    reveal_strlit("pg_failover_slots_rs.drop_extra_slots");
    reveal_strlit("pg_failover_slots_rs.primary_dsn");
    reveal_strlit("pg_failover_slots_rs.worker_nap_time");
    reveal_strlit("pg_failover_slots_rs.maintenance_db");
    reveal_strlit("version");
    reveal_strlit("standby_slot_names");
    reveal_strlit("standby_slots_min_confirmed");
    reveal_strlit("synchronize_slot_names");
    reveal_strlit("drop_extra_slots");
    reveal_strlit("primary_dsn");
    reveal_strlit("worker_nap_time");
    reveal_strlit("maintenance_db");
    let table = guc_table();
    assert(table[0].name@.skip(21) =~= "version"@);
    assert(table[1].name@.skip(21) =~= "standby_slot_names"@);
    assert(table[2].name@.skip(21) =~= "standby_slots_min_confirmed"@);
    assert(table[3].name@.skip(21) =~= "synchronize_slot_names"@);
    assert(table[4].name@.skip(21) =~= "drop_extra_slots"@);
    assert(table[5].name@.skip(21) =~= "primary_dsn"@);
    assert(table[6].name@.skip(21) =~= "worker_nap_time"@);
    assert(table[7].name@.skip(21) =~= "maintenance_db"@);
    assert forall|i: int| 0 <= i < table.len() implies is_as_documented(#[trigger] table[i]) by {
        assert(i == 0 || i == 1 || i == 2 || i == 3 || i == 4 || i == 5 || i == 6 || i == 7);
    }
}

/// Where nothing is configured, slots of any name are synchronized, and no standby has to
/// confirm anything.
pub proof fn defaults_take_all_slots_and_name_no_standby(settings: Settings)
    requires
        settings.is_default(),
    ensures
        settings.filters() == seq![
            FilterView { key: FailoverSlotFilterKey::NameLike, val: "%%"@ },
        ],
        settings.standby_names().len() == 0,
        settings.database() == "postgres"@,
{
    let all = FilterView { key: FailoverSlotFilterKey::NameLike, val: "%%"@ };
    reveal_strlit("");
    reveal_strlit("%%");
    reveal_strlit("name_like");
    reveal_strlit("name_like:%%");
    reveal_strlit("postgres");
    assert(filter_text(all) =~= "name_like:%%"@);
    filter_round_trip(all);
    blank_list_is_empty(""@);
}

} // verus!

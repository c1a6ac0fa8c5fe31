//! What is sent to the primary, and what is read from its answers.

use crate::guc::{
    filters_of_text, guc_text, names_of_text, FailoverSlotFilterKey, FilterView, Settings,
};
use crate::laws::lists::blank_list_is_empty;
use crate::laws::lsn::hex_round_trip;
use crate::laws::text::number_is_digits_behind_an_optional_sign;
use crate::remote::{
    connection_params, dsn_for_database, filter_condition, filter_conditions, half_of_text,
    hex_char, hex_text, lsn_of_text, lsn_text, slot_filter_query, slot_in_row, xid_of_text,
    PgResult, SLOT_LSN_QUERY_BASE, SLOT_NAMES_QUERY, SLOT_QUERY_BASE,
};
use crate::text::{split_at_first, trimmed, unsigned_value};
use vstd::prelude::*;

verus! {

// ---------------------------------------------------------------------------
// Queries
// ---------------------------------------------------------------------------

/// The condition for one filter: a slot name that equals the literal or is like it, or a plugin
/// that equals it.
pub open spec fn condition(key: FailoverSlotFilterKey, literal: Seq<char>) -> Seq<char> {
    let comparison = match key {
        FailoverSlotFilterKey::Name => "slot_name OPERATOR(pg_catalog.=) "@,
        FailoverSlotFilterKey::NameLike => "slot_name LIKE "@,
        FailoverSlotFilterKey::Plugin => "plugin OPERATOR(pg_catalog.=) "@,
    };
    comparison + literal
}

proof fn lemma_spaces(key: FailoverSlotFilterKey)
    ensures
        " "@ =~= seq![' '],
        filter_condition(key) == seq![' '] + condition(key, Seq::empty()),
{
    reveal_strlit(" ");
    reveal_strlit(" slot_name OPERATOR(pg_catalog.=) ");
    reveal_strlit("slot_name OPERATOR(pg_catalog.=) ");
    reveal_strlit(" slot_name LIKE ");
    reveal_strlit("slot_name LIKE ");
    reveal_strlit(" plugin OPERATOR(pg_catalog.=) ");
    reveal_strlit("plugin OPERATOR(pg_catalog.=) ");
    assert(filter_condition(key) =~= seq![' '] + condition(key, Seq::empty()));
}

/// The query for a single filter asks for the slots for which its condition holds.
pub proof fn query_for_one_filter(filter: FilterView, literal: Seq<char>)
    ensures
        slot_filter_query(seq![filter], seq![literal]) == SLOT_QUERY_BASE@ + "  "@ + condition(
            filter.key,
            literal,
        ) + ")"@,
{
    let fs = seq![filter];
    let ls = seq![literal];
    reveal_strlit("");
    reveal_strlit("  ");
    lemma_spaces(filter.key);
    assert(fs.drop_last() =~= Seq::<FilterView>::empty());
    reveal_with_fuel(filter_conditions, 2);
    assert(filter_conditions(fs, ls) =~= "  "@ + condition(filter.key, literal));
    assert(SLOT_QUERY_BASE@ + ("  "@ + condition(filter.key, literal)) + ")"@ =~= SLOT_QUERY_BASE@
        + "  "@ + condition(filter.key, literal) + ")"@);
}

/// With one more filter, the query asks for the slots for which what it asked before holds, or
/// the condition of that filter, whatever the filters: the conditions are joined by `OR`.
pub proof fn query_for_one_more_filter(
    filters: Seq<FilterView>,
    literals: Seq<Seq<char>>,
    filter: FilterView,
    literal: Seq<char>,
)
    requires
        filters.len() > 0,
        filters.len() == literals.len(),
    ensures
        slot_filter_query(filters.push(filter), literals.push(literal)) == slot_filter_query(
            filters,
            literals,
        ).drop_last() + " OR "@ + condition(filter.key, literal) + ")"@,
{
    let fs = filters.push(filter);
    let ls = literals.push(literal);
    reveal_strlit("OR");
    reveal_strlit(" OR ");
    reveal_strlit(")");
    lemma_spaces(filter.key);
    assert(fs.drop_last() =~= filters);
    assert(ls.drop_last() =~= literals);
    assert(slot_filter_query(filters, literals).drop_last() =~= SLOT_QUERY_BASE@
        + filter_conditions(filters, literals));
    assert(filter_conditions(fs, ls) =~= filter_conditions(filters, literals) + " OR "@
        + condition(filter.key, literal));
    assert(slot_filter_query(fs, ls) =~= SLOT_QUERY_BASE@ + filter_conditions(filters, literals)
        + " OR "@ + condition(filter.key, literal) + ")"@);
}

/// Without filters there is no condition but that a slot is logical. What is asked for are the
/// seven columns that a slot is read from.
pub proof fn query_without_filters(literals: Seq<Seq<char>>)
    ensures
        slot_filter_query(Seq::empty(), literals)
            == "SELECT slot_name, plugin, database, two_phase, catalog_xmin, restart_lsn, confirmed_flush_lsn FROM pg_catalog.pg_replication_slots WHERE database IS NOT NULL AND ("@
            + ")"@,
{
    assert(SLOT_QUERY_BASE@ + Seq::<char>::empty() =~= SLOT_QUERY_BASE@);
}

/// The names are asked for of all logical slots, without any filter. The position is asked for
/// of one slot, by its exact name.
pub proof fn other_queries_know_no_filter()
    ensures
        SLOT_NAMES_QUERY@
            == "SELECT slot_name FROM pg_catalog.pg_replication_slots WHERE database IS NOT NULL"@,
        SLOT_LSN_QUERY_BASE@
            == "SELECT restart_lsn FROM pg_catalog.pg_replication_slots WHERE slot_name OPERATOR(pg_catalog.=) "@,
{
}

// ---------------------------------------------------------------------------
// Connections
// ---------------------------------------------------------------------------

/// A connection string is what it was, with the database behind it.
pub proof fn dsn_names_the_database(dsn: Seq<char>, db_name: Seq<char>)
    ensures
        dsn_for_database(dsn, db_name).take(dsn.len() as int) == dsn,
        dsn_for_database(dsn, db_name).skip(dsn.len() as int) == " dbname="@ + db_name,
{
    assert(dsn_for_database(dsn, db_name) =~= dsn + (" dbname="@ + db_name));
    assert(dsn_for_database(dsn, db_name).take(dsn.len() as int) =~= dsn);
    assert(dsn_for_database(dsn, db_name).skip(dsn.len() as int) =~= " dbname="@ + db_name);
}

/// Every connection is made the same way, but for its connection string and the name that it
/// goes by.
pub proof fn connections_differ_only_in_target_and_name(
    connstr: Seq<char>,
    appname: Seq<char>,
    i: int,
)
    requires
        0 <= i < connection_params(connstr, appname).len(),
    ensures
        connection_params(connstr, appname).len() == 7,
        connection_params(connstr, appname)[i] == if i == 0 {
            ("dbname"@, connstr)
        } else if i == 1 {
            ("application_name"@, appname)
        } else if i == 2 {
            ("connect_timeout"@, "30"@)
        } else if i == 3 {
            ("keepalives"@, "1"@)
        } else if i == 4 {
            ("keepalives_idle"@, "20"@)
        } else if i == 5 {
            ("keepalives_interval"@, "20"@)
        } else {
            ("keepalives_count"@, "5"@)
        },
{
}

/// The text of a parameter is its value, and empty where it is unset; the database for
/// connections is the configured one, and `postgres` where none is. The filters and the names of
/// the standbys are those that the configured texts list, and there are none where nothing is
/// configured.
pub proof fn parameter_texts_are_the_values(settings: Settings, value: String)
    ensures
        guc_text(Some(value)) == value@,
        guc_text(None).len() == 0,
        settings.maintenance_db matches Some(db) ==> (db@.len() > 0 ==> settings.database() == db@),
        (settings.maintenance_db is None || settings.maintenance_db->0@.len() == 0)
            ==> settings.database() == "postgres"@,
        settings.synchronize_slot_names matches Some(list) ==> settings.filters()
            == filters_of_text(list@),
        settings.synchronize_slot_names is None ==> settings.filters().len() == 0,
        settings.standby_slot_names matches Some(list) ==> settings.standby_names()
            == names_of_text(list@),
        settings.standby_slot_names is None ==> settings.standby_names().len() == 0,
{
    blank_list_is_empty(Seq::empty());
}

// ---------------------------------------------------------------------------
// Answers
// ---------------------------------------------------------------------------

/// A field of an answer is what stands there: a null and a field that is not there have no
/// value and read as empty text.
pub proof fn fields_are_what_stands_there(result: PgResult, row: int, col: int)
    ensures
        ({
            let there = 0 <= row < result.rows@.len() && 0 <= col < result.rows@[row]@.len();
            let field = result.rows@[row]@[col];
            &&& there && field is Some ==> result.cell(row, col) == Some(field->0@)
                && result.cell_text(row, col) == field->0@
            &&& !there || field is None ==> result.cell(row, col) is None && result.cell_text(
                row,
                col,
            ).len() == 0
        }),
{
}

/// What is read of a slot from a row, column by column. A null or unreadable xmin or position is
/// invalid.
pub proof fn slot_is_read_by_column(result: PgResult, row: int)
    ensures
        ({
            let slot = slot_in_row(result, row);
            &&& slot.name == result.cell_text(row, 0)
            &&& slot.plugin == result.cell_text(row, 1)
            &&& slot.database == result.cell_text(row, 2)
            &&& slot.two_phase <==> result.cell(row, 3) == Some("t"@)
            &&& result.cell(row, 4) is None ==> slot.catalog_xmin == 0
            &&& result.cell(row, 4) is Some ==> slot.catalog_xmin == xid_of_text(
                result.cell(row, 4)->0,
            )
            &&& result.cell(row, 5) is None ==> slot.restart_lsn == 0
            &&& result.cell(row, 5) is Some ==> slot.restart_lsn == lsn_of_text(
                result.cell(row, 5)->0,
            )
            &&& result.cell(row, 6) is None ==> slot.confirmed_lsn == 0
            &&& result.cell(row, 6) is Some ==> slot.confirmed_lsn == lsn_of_text(
                result.cell(row, 6)->0,
            )
        }),
{
    reveal_strlit("t");
    assert("t"@.len() == 1);
}

/// A transaction id is a decimal number of 32 bits, a half of a position a hexadecimal number of
/// 64 bits. What is no such number reads as 0.
pub proof fn numbers_are_read_or_zero(s: Seq<char>)
    ensures
        unsigned_value(s, 10, u32::MAX as int) is None ==> xid_of_text(s) == 0,
        unsigned_value(s, 10, u32::MAX as int) matches Some(v) ==> xid_of_text(s) == v,
        unsigned_value(s, 16, u64::MAX as int) is None ==> half_of_text(s) == 0,
        unsigned_value(s, 16, u64::MAX as int) matches Some(v) ==> half_of_text(s) == v,
{
    number_is_digits_behind_an_optional_sign(s, 10, u32::MAX as int);
    number_is_digits_behind_an_optional_sign(s, 16, u64::MAX as int);
}

/// A text without a slash is no position. One with a slash has its low half from behind the
/// first one and its high half from before it, where white space around the text does not count.
pub proof fn position_has_two_halves(s: Seq<char>)
    ensures
        split_at_first(trimmed(s), '/') is None ==> lsn_of_text(s) == 0,
        split_at_first(trimmed(s), '/') matches Some((hi, lo)) ==> {
            &&& lsn_of_text(s) % 0x1_0000_0000 == half_of_text(lo) % 0x1_0000_0000
            &&& lsn_of_text(s) / 0x1_0000_0000 == (half_of_text(hi) % 0x1_0000_0000) | (
            half_of_text(lo) / 0x1_0000_0000)
        },
{
    if let Some((hi, lo)) = split_at_first(trimmed(s), '/') {
        let h = half_of_text(hi);
        let l = half_of_text(lo);
        assert(((h << 32) | l) % 0x1_0000_0000 == l % 0x1_0000_0000 && ((h << 32) | l)
            / 0x1_0000_0000 == (h % 0x1_0000_0000) | (l / 0x1_0000_0000)) by (bit_vector);
    }
}

/// A hexadecimal digit as the server writes it.
pub open spec fn is_server_digit(c: char) -> bool {
    '0' <= c <= '9' || 'A' <= c <= 'F'
}

proof fn lemma_hex_text_form(n: int)
    requires
        0 <= n,
    ensures
        hex_text(n).len() > 0,
        forall|i: int| 0 <= i < hex_text(n).len() ==> is_server_digit(#[trigger] hex_text(n)[i]),
        n > 0 ==> hex_text(n)[0] != '0',
        n == 0 ==> hex_text(n) == seq!['0'],
    decreases n,
{
    if n >= 16 {
        lemma_hex_text_form(n / 16);
        let head = hex_text(n / 16);
        assert forall|i: int| 0 <= i < hex_text(n).len() implies is_server_digit(
            #[trigger] hex_text(n)[i],
        ) by {
            if i < head.len() {
                assert(hex_text(n)[i] == head[i]);
            } else {
                assert(hex_text(n)[i] == hex_char(n % 16));
            }
        }
        assert(hex_text(n)[0] == head[0]);
    }
}

/// A position is written as two hexadecimal numbers with a slash between them, in upper case and
/// without leading zeros.
pub proof fn position_is_written_as_by_the_server(lsn: u64) -> (halves: (Seq<char>, Seq<char>))
    ensures
        lsn_text(lsn) == halves.0 + seq!['/'] + halves.1,
        forall|i: int| 0 <= i < halves.0.len() ==> is_server_digit(#[trigger] halves.0[i]),
        forall|i: int| 0 <= i < halves.1.len() ==> is_server_digit(#[trigger] halves.1[i]),
        halves.0.len() > 0 && halves.1.len() > 0,
        halves.0.len() > 1 ==> halves.0[0] != '0',
        halves.1.len() > 1 ==> halves.1[0] != '0',
        half_of_text(halves.0) == lsn / 0x1_0000_0000,
        half_of_text(halves.1) == lsn % 0x1_0000_0000,
{
    let high = lsn as int / 0x1_0000_0000;
    let low = lsn as int % 0x1_0000_0000;
    lemma_hex_text_form(high);
    lemma_hex_text_form(low);
    hex_round_trip(high);
    hex_round_trip(low);
    (hex_text(high), hex_text(low))
}

} // verus!

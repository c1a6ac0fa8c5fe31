//! What is asked of the primary server, and how its answers are read.

use crate::guc::{
    filter_views, get_primary_dsn, guc_text, name_views, FailoverSlotFilter, FailoverSlotFilterKey,
    FilterView, Settings,
};
use crate::pg_compat::{INVALID_TRANSACTION_ID, INVALID_XLOG_REC_PTR};
use crate::text;
use vstd::prelude::*;

verus! {

// ---------------------------------------------------------------------------
// Positions in the write-ahead log, as text
// ---------------------------------------------------------------------------

/// One half of a position: a hexadecimal number, 0 where it is not one.
pub open spec fn half_of_text(s: Seq<char>) -> u64 {
    match text::unsigned_value(s, 16, u64::MAX as int) {
        Some(value) => value as u64,
        None => 0,
    }
}

/// The position that a text like `0/16B3748` stands for. White space around it does not
/// count; a text without a slash is no position.
pub open spec fn lsn_of_text(s: Seq<char>) -> u64 {
    match text::split_at_first(text::trimmed(s), '/') {
        Some((hi, lo)) => (half_of_text(hi) << 32) | half_of_text(lo),
        None => INVALID_XLOG_REC_PTR,
    }
}

/// One half of a position.
fn parse_lsn_half(s: &str) -> (half: u64)
    ensures
        half == half_of_text(s@),
{
    match text::parse_unsigned(s, 16, u64::MAX) {
        Some(half) => half,
        None => 0,
    }
}

/// Parse an LSN string like `0/16B3748`.
pub fn parse_lsn(s: &str) -> (lsn: u64)
    ensures
        lsn == lsn_of_text(s@),
{
    let s: &str = text::trim(s);
    match text::split_once(s, '/') {
        Some((hi_str, lo_str)) => {
            let hi: u64 = parse_lsn_half(hi_str);
            let lo: u64 = parse_lsn_half(lo_str);
            (hi << 32) | lo
        },
        None => INVALID_XLOG_REC_PTR,
    }
}

/// The hexadecimal digit for a value below sixteen.
pub open spec fn hex_char(digit: int) -> char {
    if digit < 10 {
        ('0' as u32 + digit) as char
    } else {
        ('A' as u32 + digit - 10) as char
    }
}

/// A number in hexadecimal, without leading zeros.
pub open spec fn hex_text(n: int) -> Seq<char>
    decreases n,
{
    if n < 16 {
        seq![hex_char(n)]
    } else {
        hex_text(n / 16).push(hex_char(n % 16))
    }
}

/// A position as the server writes it: its two halves in hexadecimal, a slash between them.
pub open spec fn lsn_text(lsn: u64) -> Seq<char> {
    hex_text(lsn as int / 0x1_0000_0000) + seq!['/'] + hex_text(lsn as int % 0x1_0000_0000)
}

/// The hexadecimal digit for a value below sixteen.
fn hex_digit(digit: u64) -> (s: &'static str)
    requires
        digit < 16,
    ensures
        s@ == seq![hex_char(digit as int)],
{
    proof {
        reveal_strlit("0");
        reveal_strlit("1");
        reveal_strlit("2");
        reveal_strlit("3");
        reveal_strlit("4");
        reveal_strlit("5");
        reveal_strlit("6");
        reveal_strlit("7");
        reveal_strlit("8");
        reveal_strlit("9");
        reveal_strlit("A");
        reveal_strlit("B");
        reveal_strlit("C");
        reveal_strlit("D");
        reveal_strlit("E");
        reveal_strlit("F");
    }
    if digit == 0 {
        "0"
    } else if digit == 1 {
        "1"
    } else if digit == 2 {
        "2"
    } else if digit == 3 {
        "3"
    } else if digit == 4 {
        "4"
    } else if digit == 5 {
        "5"
    } else if digit == 6 {
        "6"
    } else if digit == 7 {
        "7"
    } else if digit == 8 {
        "8"
    } else if digit == 9 {
        "9"
    } else if digit == 10 {
        "A"
    } else if digit == 11 {
        "B"
    } else if digit == 12 {
        "C"
    } else if digit == 13 {
        "D"
    } else if digit == 14 {
        "E"
    } else {
        "F"
    }
}

/// A number in hexadecimal, without leading zeros.
fn format_hex(n: u64) -> (s: String)
    ensures
        s@ == hex_text(n as int),
    decreases n,
{
    if n < 16 {
        hex_digit(n).to_owned()
    } else {
        let high: String = format_hex(n / 16);
        let s: String = high.concat(hex_digit(n % 16));
        assert(s@ =~= hex_text(n as int / 16).push(hex_char(n as int % 16)));
        s
    }
}

/// Write a position as the server does, for messages.
pub fn format_lsn(lsn: u64) -> (s: String)
    ensures
        s@ == lsn_text(lsn),
{
    proof {
        reveal_strlit("/");
    }
    let hi: String = format_hex(lsn / 0x1_0000_0000);
    let lo: String = format_hex(lsn % 0x1_0000_0000);
    let s: String = hi.concat("/").concat(lo.as_str());
    assert("/"@ =~= seq!['/']);
    s
}

// ---------------------------------------------------------------------------
// Replication slots of the primary
// ---------------------------------------------------------------------------

/// Information about a replication slot on the primary server.
#[derive(Debug)]
pub struct RemoteSlot {
    pub name: String,
    pub plugin: String,
    pub database: String,
    pub two_phase: bool,
    pub catalog_xmin: u32,
    pub restart_lsn: u64,
    pub confirmed_lsn: u64,
}

impl Clone for RemoteSlot {
    fn clone(&self) -> (slot: RemoteSlot)
        ensures
            slot == *self,
    {
        RemoteSlot {
            name: self.name.clone(),
            plugin: self.plugin.clone(),
            database: self.database.clone(),
            two_phase: self.two_phase,
            catalog_xmin: self.catalog_xmin,
            restart_lsn: self.restart_lsn,
            confirmed_lsn: self.confirmed_lsn,
        }
    }
}

/// The contents of a [`RemoteSlot`].
pub struct RemoteSlotView {
    pub name: Seq<char>,
    pub plugin: Seq<char>,
    pub database: Seq<char>,
    pub two_phase: bool,
    pub catalog_xmin: u32,
    pub restart_lsn: u64,
    pub confirmed_lsn: u64,
}

impl View for RemoteSlot {
    type V = RemoteSlotView;

    open spec fn view(&self) -> RemoteSlotView {
        RemoteSlotView {
            name: self.name@,
            plugin: self.plugin@,
            database: self.database@,
            two_phase: self.two_phase,
            catalog_xmin: self.catalog_xmin,
            restart_lsn: self.restart_lsn,
            confirmed_lsn: self.confirmed_lsn,
        }
    }
}

// ---------------------------------------------------------------------------
// Connection strings
// ---------------------------------------------------------------------------

/// Why no connection string could be built.
#[derive(Debug, Clone, Copy, PartialEq, Eq, Structural)]
pub enum DsnError {
    /// No DSN is configured, and there is no WAL receiver to take one from.
    NoWalReceiver,
}

/// A connection string for a database.
pub open spec fn dsn_for_database(dsn: Seq<char>, db_name: Seq<char>) -> Seq<char> {
    dsn + " dbname="@ + db_name
}

/// Build the DSN string for connecting to the primary: the configured one, or that of the WAL
/// receiver where none is configured, with the database appended.
pub fn make_sync_failover_slots_dsn(
    settings: &Settings,
    conninfo: &Option<String>,
    db_name: &str,
) -> (r: Result<String, DsnError>)
    ensures
        match r {
            Ok(s) => if guc_text(settings.primary_dsn).len() > 0 {
                s@ == dsn_for_database(guc_text(settings.primary_dsn), db_name@)
            } else {
                conninfo matches Some(c) && s@ == dsn_for_database(c@, db_name@)
            },
            Err(e) => e is NoWalReceiver && guc_text(settings.primary_dsn).len() == 0
                && *conninfo is None,
        },
{
    let dsn: String = get_primary_dsn(settings);
    if !dsn.as_str().is_empty() {
        Ok(dsn.concat(" dbname=").concat(db_name))
    } else {
        match conninfo {
            Some(conninfo) => Ok(conninfo.clone().concat(" dbname=").concat(db_name)),
            None => Err(DsnError::NoWalReceiver),
        }
    }
}

/// A keyword of libpq and its value.
#[derive(Debug)]
pub struct ConnectionParam {
    pub keyword: &'static str,
    pub value: String,
}

/// Keywords and values that a connection to the primary is made with.
pub open spec fn connection_params(connstr: Seq<char>, appname: Seq<char>) -> Seq<
    (Seq<char>, Seq<char>),
> {
    seq![
        ("dbname"@, connstr),
        ("application_name"@, appname),
        ("connect_timeout"@, "30"@),
        ("keepalives"@, "1"@),
        ("keepalives_idle"@, "20"@),
        ("keepalives_interval"@, "20"@),
        ("keepalives_count"@, "5"@),
    ]
}

/// The parameters for a connection to the primary. The connection string stands as the value
/// of `dbname`, which libpq expands.
pub fn remote_connect_params(connstr: &str, appname: &str) -> (params: Vec<ConnectionParam>)
    ensures
        params@.map_values(|p: ConnectionParam| (p.keyword@, p.value@)) == connection_params(
            connstr@,
            appname@,
        ),
{
    let params: Vec<ConnectionParam> = vec![
        ConnectionParam { keyword: "dbname", value: connstr.to_owned() },
        ConnectionParam { keyword: "application_name", value: appname.to_owned() },
        ConnectionParam { keyword: "connect_timeout", value: "30".to_owned() },
        ConnectionParam { keyword: "keepalives", value: "1".to_owned() },
        ConnectionParam { keyword: "keepalives_idle", value: "20".to_owned() },
        ConnectionParam { keyword: "keepalives_interval", value: "20".to_owned() },
        ConnectionParam { keyword: "keepalives_count", value: "5".to_owned() },
    ];
    assert(params@.map_values(|p: ConnectionParam| (p.keyword@, p.value@)) =~= connection_params(
        connstr@,
        appname@,
    ));
    params
}

// ---------------------------------------------------------------------------
// Queries
// ---------------------------------------------------------------------------

/// The query for slots, up to the conditions of the filters.
pub const SLOT_QUERY_BASE: &'static str =
    "SELECT slot_name, plugin, database, two_phase, catalog_xmin, restart_lsn, confirmed_flush_lsn FROM pg_catalog.pg_replication_slots WHERE database IS NOT NULL AND (";

/// The query for the position of one slot, up to the slot's name.
pub const SLOT_LSN_QUERY_BASE: &'static str =
    "SELECT restart_lsn FROM pg_catalog.pg_replication_slots WHERE slot_name OPERATOR(pg_catalog.=) ";

/// The query for the names of all logical slots.
pub const SLOT_NAMES_QUERY: &'static str =
    "SELECT slot_name FROM pg_catalog.pg_replication_slots WHERE database IS NOT NULL";

/// The comparison that a filter key stands for, up to its operand.
pub open spec fn filter_condition(key: FailoverSlotFilterKey) -> Seq<char> {
    match key {
        FailoverSlotFilterKey::Name => " slot_name OPERATOR(pg_catalog.=) "@,
        FailoverSlotFilterKey::NameLike => " slot_name LIKE "@,
        FailoverSlotFilterKey::Plugin => " plugin OPERATOR(pg_catalog.=) "@,
    }
}

/// The conditions of all filters, any of which may hold. `literals` are the filters' values
/// as SQL string literals.
pub open spec fn filter_conditions(filters: Seq<FilterView>, literals: Seq<Seq<char>>) -> Seq<char>
    decreases filters.len(),
{
    if filters.len() == 0 {
        Seq::empty()
    } else {
        let before = filter_conditions(filters.drop_last(), literals.drop_last());
        let op = if filters.len() == 1 {
            ""@
        } else {
            "OR"@
        };
        before + " "@ + op + filter_condition(filters.last().key) + literals.last()
    }
}

/// The query for the slots that match one of the filters.
pub open spec fn slot_filter_query(filters: Seq<FilterView>, literals: Seq<Seq<char>>) -> Seq<
    char,
> {
    SLOT_QUERY_BASE@ + filter_conditions(filters, literals) + ")"@
}

/// Build the query that fetches the slots that match one of the filters. `literals` holds each
/// filter's value as the connection writes it as an SQL string literal.
pub fn build_slot_filter_query(
    filters: &Vec<FailoverSlotFilter>,
    literals: &Vec<String>,
) -> (query: String)
    requires
        filters@.len() == literals@.len(),
    ensures
        query@ == slot_filter_query(filter_views(filters@), name_views(literals@)),
{
    let ghost fs = filter_views(filters@);
    let ghost ls = name_views(literals@);
    let mut query: String = SLOT_QUERY_BASE.to_owned();
    let mut i: usize = 0;
    assert(query@ =~= SLOT_QUERY_BASE@ + filter_conditions(fs.take(0), ls.take(0)));
    while i < filters.len()
        invariant
            i <= filters@.len(),
            filters@.len() == literals@.len(),
            fs == filter_views(filters@),
            ls == name_views(literals@),
            query@ == SLOT_QUERY_BASE@ + filter_conditions(
                fs.take(i as int),
                ls.take(i as int),
            ),
        decreases filters@.len() - i,
    {
        proof {
            assert(fs.take(i + 1).drop_last() =~= fs.take(i as int));
            assert(ls.take(i + 1).drop_last() =~= ls.take(i as int));
            assert(fs.take(i + 1).last() == filters@[i as int]@);
            assert(ls.take(i + 1).last() == literals@[i as int]@);
        }
        let op: &str = if i == 0 {
            ""
        } else {
            "OR"
        };
        query.append(" ");
        query.append(op);
        match filters[i].key {
            FailoverSlotFilterKey::Name => query.append(" slot_name OPERATOR(pg_catalog.=) "),
            FailoverSlotFilterKey::NameLike => query.append(" slot_name LIKE "),
            FailoverSlotFilterKey::Plugin => query.append(" plugin OPERATOR(pg_catalog.=) "),
        }
        query.append(literals[i].as_str());
        assert(query@ =~= SLOT_QUERY_BASE@ + filter_conditions(fs.take(i + 1), ls.take(i + 1)));
        i = i + 1;
    }
    proof {
        assert(fs.take(fs.len() as int) =~= fs);
        assert(ls.take(ls.len() as int) =~= ls);
    }
    query.append(")");
    query
}

/// The query for the slots to fetch, none where there are no filters: nothing is fetched then.
pub fn primary_slot_info_query(
    filters: &Vec<FailoverSlotFilter>,
    literals: &Vec<String>,
) -> (query: Option<String>)
    requires
        filters@.len() == literals@.len(),
    ensures
        match query {
            Some(q) => filters@.len() > 0 && q@ == slot_filter_query(
                filter_views(filters@),
                name_views(literals@),
            ),
            None => filters@.len() == 0,
        },
{
    if filters.len() == 0 {
        None
    } else {
        Some(build_slot_filter_query(filters, literals))
    }
}

/// The query for the position of the slot whose name is the given SQL string literal.
pub fn physical_slot_lsn_query(literal: &str) -> (query: String)
    ensures
        query@ == SLOT_LSN_QUERY_BASE@ + literal@,
{
    SLOT_LSN_QUERY_BASE.to_owned().concat(literal)
}

// ---------------------------------------------------------------------------
// Query results
// ---------------------------------------------------------------------------

/// The status of a query result, as libpq tells it.
#[derive(Debug, Clone, Copy, PartialEq, Eq, Structural)]
pub enum ExecStatusType {
    EmptyQuery,
    CommandOk,
    TuplesOk,
    CopyOut,
    CopyIn,
    BadResponse,
    NonfatalError,
    FatalError,
    CopyBoth,
    SingleTuple,
    PipelineSync,
    PipelineAborted,
    TuplesChunk,
}

/// A query result: a table of text values, some of them null.
#[derive(Debug)]
pub struct PgResult {
    pub status: ExecStatusType,
    /// The error message, none where the query gave no result at all.
    pub error: Option<String>,
    pub rows: Vec<Vec<Option<String>>>,
}

impl PgResult {
    /// libpq counts rows by `int`.
    pub open spec fn well_formed(self) -> bool {
        self.rows@.len() <= i32::MAX
    }

    /// The value at a row and a column, none where it is null or there is no such field.
    pub open spec fn cell(self, row: int, col: int) -> Option<Seq<char>> {
        if 0 <= row < self.rows@.len() && 0 <= col < self.rows@[row]@.len() {
            match self.rows@[row]@[col] {
                Some(s) => Some(s@),
                None => None,
            }
        } else {
            None
        }
    }

    /// The text at a row and a column, empty where it is null or there is no such field.
    pub open spec fn cell_text(self, row: int, col: int) -> Seq<char> {
        match self.cell(row, col) {
            Some(s) => s,
            None => Seq::empty(),
        }
    }

    pub fn status(&self) -> (status: ExecStatusType)
        ensures
            status == self.status,
    {
        self.status
    }

    pub fn error_message(&self) -> (message: String)
        ensures
            match self.error {
                Some(s) => message@ == s@,
                None => message@ == "(null result)"@,
            },
    {
        match &self.error {
            Some(s) => s.clone(),
            None => "(null result)".to_owned(),
        }
    }

    pub fn ntuples(&self) -> (n: i32)
        requires
            self.well_formed(),
        ensures
            n == self.rows@.len(),
    {
        self.rows.len() as i32
    }

    /// The field at a row and a column.
    fn field(&self, row: i32, col: i32) -> (field: Option<&String>)
        ensures
            match field {
                Some(s) => self.cell(row as int, col as int) == Some(s@),
                None => self.cell(row as int, col as int) is None,
            },
    {
        if 0 <= row && 0 <= col && (row as usize) < self.rows.len() && (col as usize)
            < self.rows[row as usize].len() {
            self.rows[row as usize][col as usize].as_ref()
        } else {
            None
        }
    }

    pub fn get_value(&self, row: i32, col: i32) -> (value: String)
        ensures
            value@ == self.cell_text(row as int, col as int),
    {
        match self.field(row, col) {
            Some(s) => s.clone(),
            None => String::new(),
        }
    }

    pub fn is_null(&self, row: i32, col: i32) -> (null: bool)
        ensures
            null <==> self.cell(row as int, col as int) is None,
    {
        self.field(row, col).is_none()
    }

    pub fn is_tuples_ok(&self) -> (ok: bool)
        ensures
            ok <==> self.status is TuplesOk,
    {
        self.status == ExecStatusType::TuplesOk
    }
}

/// The transaction id that a text stands for, invalid where it is not a number.
pub open spec fn xid_of_text(s: Seq<char>) -> u32 {
    match text::unsigned_value(s, 10, u32::MAX as int) {
        Some(value) => value as u32,
        None => INVALID_TRANSACTION_ID,
    }
}

/// The slot in a row of the result of a slot query. Null positions are invalid.
pub open spec fn slot_in_row(result: PgResult, row: int) -> RemoteSlotView {
    RemoteSlotView {
        name: result.cell_text(row, 0),
        plugin: result.cell_text(row, 1),
        database: result.cell_text(row, 2),
        two_phase: result.cell_text(row, 3) == "t"@,
        catalog_xmin: match result.cell(row, 4) {
            Some(s) => xid_of_text(s),
            None => INVALID_TRANSACTION_ID,
        },
        restart_lsn: match result.cell(row, 5) {
            Some(s) => lsn_of_text(s),
            None => INVALID_XLOG_REC_PTR,
        },
        confirmed_lsn: match result.cell(row, 6) {
            Some(s) => lsn_of_text(s),
            None => INVALID_XLOG_REC_PTR,
        },
    }
}

/// The position in a field, invalid where it is null.
fn lsn_field(result: &PgResult, row: i32, col: i32) -> (lsn: u64)
    ensures
        lsn == match result.cell(row as int, col as int) {
            Some(s) => lsn_of_text(s),
            None => INVALID_XLOG_REC_PTR,
        },
{
    if result.is_null(row, col) {
        INVALID_XLOG_REC_PTR
    } else {
        parse_lsn(result.get_value(row, col).as_str())
    }
}

/// The transaction id in a field, invalid where it is null.
fn xid_field(result: &PgResult, row: i32, col: i32) -> (xid: u32)
    ensures
        xid == match result.cell(row as int, col as int) {
            Some(s) => xid_of_text(s),
            None => INVALID_TRANSACTION_ID,
        },
{
    if result.is_null(row, col) {
        INVALID_TRANSACTION_ID
    } else {
        match text::parse_unsigned(result.get_value(row, col).as_str(), 10, u32::MAX as u64) {
            Some(xid) => xid as u32,
            None => INVALID_TRANSACTION_ID,
        }
    }
}

/// The slots in the result of a slot query, one for each row; none where the query failed.
pub fn remote_get_primary_slot_info(result: &PgResult) -> (slots: Vec<RemoteSlot>)
    requires
        result.well_formed(),
    ensures
        result.status !is TuplesOk ==> slots@.len() == 0,
        result.status is TuplesOk ==> slots@.len() == result.rows@.len(),
        forall|i: int| 0 <= i < slots@.len() ==> #[trigger] slots@[i]@ == slot_in_row(*result, i),
{
    let mut slots: Vec<RemoteSlot> = Vec::new();
    if !result.is_tuples_ok() {
        return slots;
    }
    let n: i32 = result.ntuples();
    let mut row: i32 = 0;
    while row < n
        invariant
            0 <= row <= n,
            n == result.rows@.len(),
            slots@.len() == row,
            forall|i: int|
                0 <= i < slots@.len() ==> #[trigger] slots@[i]@ == slot_in_row(*result, i),
        decreases n - row,
    {
        let two_phase: String = result.get_value(row, 3);
        let slot: RemoteSlot = RemoteSlot {
            name: result.get_value(row, 0),
            plugin: result.get_value(row, 1),
            database: result.get_value(row, 2),
            two_phase: text::same_text(two_phase.as_str(), "t"),
            catalog_xmin: xid_field(result, row, 4),
            restart_lsn: lsn_field(result, row, 5),
            confirmed_lsn: lsn_field(result, row, 6),
        };
        slots.push(slot);
        row = row + 1;
    }
    slots
}

/// The slots in the answer to a slot query, nothing where there is no answer: a query that failed
/// does not show that the primary has no slots.
pub fn answered_slots(result: &PgResult) -> (slots: Option<Vec<RemoteSlot>>)
    requires
        result.well_formed(),
    ensures
        match slots {
            Some(slots) => {
                &&& result.status is TuplesOk
                &&& slots@.len() == result.rows@.len()
                &&& forall|i: int|
                    0 <= i < slots@.len() ==> #[trigger] slots@[i]@ == slot_in_row(*result, i)
            },
            None => result.status !is TuplesOk,
        },
{
    if result.is_tuples_ok() {
        Some(remote_get_primary_slot_info(result))
    } else {
        None
    }
}

/// The names in the answer to the query for the names of all slots, one for each row; nothing
/// where there is no answer.
pub fn answered_slot_names(result: &PgResult) -> (names: Option<Vec<String>>)
    requires
        result.well_formed(),
    ensures
        match names {
            Some(names) => {
                &&& result.status is TuplesOk
                &&& names@.len() == result.rows@.len()
                &&& forall|i: int|
                    0 <= i < names@.len() ==> (#[trigger] names@[i])@ == result.cell_text(i, 0)
            },
            None => result.status !is TuplesOk,
        },
{
    if !result.is_tuples_ok() {
        return None;
    }
    let n: i32 = result.ntuples();
    let mut names: Vec<String> = Vec::new();
    let mut row: i32 = 0;
    while row < n
        invariant
            0 <= row <= n,
            n == result.rows@.len(),
            names@.len() == row,
            forall|i: int|
                0 <= i < names@.len() ==> (#[trigger] names@[i])@ == result.cell_text(i, 0),
        decreases n - row,
    {
        names.push(result.get_value(row, 0));
        row = row + 1;
    }
    Some(names)
}

/// The position in the result of a query for the position of one slot; invalid where the query
/// failed, the slot was not found, or it has no position.
pub fn remote_get_physical_slot_lsn(result: &PgResult) -> (lsn: u64)
    requires
        result.well_formed(),
    ensures
        lsn == if result.status is TuplesOk && result.rows@.len() == 1 {
            lsn_of_text(result.cell_text(0, 0))
        } else {
            INVALID_XLOG_REC_PTR
        },
{
    if !result.is_tuples_ok() {
        return INVALID_XLOG_REC_PTR;
    }
    if result.ntuples() != 1 {
        return INVALID_XLOG_REC_PTR;
    }
    lsn_field(result, 0, 0)
}

} // verus!

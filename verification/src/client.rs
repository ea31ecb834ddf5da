//! One session with a server, as a machine that is told what was read
//! and says what to write.
//!
//! The session owns no socket. Each exchange starts with a call that
//! returns the bytes to write. After that the caller reads from the
//! server and hands every chunk to the matching `..._feed`, which answers
//! with more bytes to write or with the result of the exchange.

use crate::backend::next_message;
use crate::backend::BackendMessage;
use crate::backend::DataRow;
use crate::backend::fields_view;
use crate::backend::next_in;
use crate::backend::ErrorView;
use crate::backend::FieldView;
use crate::backend::MessageView;
use crate::backend::Next;
use crate::client_options::ClientOptions;
use crate::column_result::clone_storages;
use crate::column_result::columns_from_fields;
use crate::column_result::decode_cell;
use crate::column_result::emptied;
use crate::column_result::extended;
use crate::column_result::first_fault;
use crate::column_result::kind_of_oid;
use crate::column_result::push_row;
use crate::column_result::reports;
use crate::column_result::row_of;
use crate::column_result::views_of;
use crate::column_result::Cell;
use crate::column_result::ColumnStorage;
use crate::column_result::ColumnView;
use crate::digits::decimal;
use crate::digits::decimal_string;
use crate::digits::lemma_plain_bytes;
use crate::error::PgToPlError;
use crate::error::PgToPlResult;
use crate::frontend::bind_body;
use crate::frontend::bind_fits;
use crate::frontend::bind_message;
use crate::frontend::close_message;
use crate::frontend::cstr;
use crate::frontend::describe_message;
use crate::frontend::execute_body;
use crate::frontend::execute_fits;
use crate::frontend::execute_message;
use crate::frontend::framed;
use crate::frontend::parse_body;
use crate::frontend::parse_fits;
use crate::frontend::parse_message;
use crate::frontend::password_message;
use crate::frontend::query_message;
use crate::frontend::sized;
use crate::frontend::startup_body;
use crate::frontend::startup_fits;
use crate::frontend::startup_message;
use crate::frontend::sync_message;
use crate::frontend::target_body;
use crate::frontend::target_fits;
use crate::frontend::text_fits;
use crate::params::format_params;
use crate::params::param_oids;
use crate::params::param_payloads;
use crate::params::payloads_of;
use crate::params::BinaryParam;
use crate::utils::error_lines;
use crate::utils::error_to_string;
use crate::utils::joined_lines;
use crate::utils::md5_hash;
use crate::utils::md5_hash_text;
use crate::utils::statement_name;
use crate::utils::statement_name_text;
use vstd::hash_map::StringHashMap;
use vstd::prelude::*;
use vstd::string::StringExecFns;
use vstd::utf8::encode_utf8;

verus! {

/// The variant byte that names a prepared statement.
pub const STATEMENT: u8 = 83;

/// The variant byte that names a portal.
pub const PORTAL: u8 = 80;

/// The format code for binary values.
pub const BINARY: i16 = 1;

/// The length of the name given to a statement that is not kept.
pub const RANDOM_NAME_LEN: usize = 21;

/// What is kept of a prepared statement: the parameter types it was
/// prepared with and empty builders for its result columns.
pub struct PreparedStatementInfo {
    /// The parameter types the statement was prepared with.
    pub param_types: Vec<u32>,
    /// Empty builders for the statement's result columns.
    pub columns: Vec<ColumnStorage>,
}

/// What the caller is to do next.
pub enum Step<T> {
    /// Write these bytes, if there are any, then read and feed again.
    More(Vec<u8>),
    /// The exchange is over, with this result.
    Done(PgToPlResult<T>),
}

/// One session.
pub struct Client {
    healthy: bool,
    options: ClientOptions,
    prepared_statements: StringHashMap<PreparedStatementInfo>,
    portal_count: u64,
    read_buffer: Vec<u8>,
    statement: String,
    prepare: bool,
    param_types: Vec<u32>,
    columns: Vec<ColumnStorage>,
    rows: Ghost<nat>,
    error_to_return: Option<String>,
}

/// What a kept statement stands for.
pub struct StatementView {
    /// The parameter types the statement was prepared with.
    pub param_types: Seq<u32>,
    /// The statement's result columns, empty.
    pub columns: Seq<ColumnView>,
}

/// What a session stands for.
pub struct ClientView {
    /// Whether the session may be used again.
    pub healthy: bool,
    /// The account.
    pub user: Seq<char>,
    /// The password of the account.
    pub password: Seq<char>,
    /// The database.
    pub database: Seq<char>,
    /// The name or address of the server.
    pub host: Seq<char>,
    /// The TCP port of the server.
    pub port: u16,
    /// Whether prepared statements are kept for reuse.
    pub caching: bool,
    /// The kept statements, by name.
    pub cache: Map<Seq<char>, StatementView>,
    /// The number of the last portal.
    pub portal_count: u64,
    /// Bytes received that are not yet a whole message.
    pub unread: Seq<u8>,
    /// The name of the statement of the query in progress.
    pub statement: Seq<char>,
    /// Whether the query in progress prepares its statement.
    pub first_prepare: bool,
    /// The parameter types of the query in progress.
    pub param_types: Seq<u32>,
    /// The result columns of the query in progress.
    pub columns: Seq<ColumnView>,
    /// The rows that the columns hold.
    pub rows: nat,
    /// The first error that the server has reported for the query in
    /// progress.
    pub pending_error: Option<Seq<char>>,
}

/// What a kept statement stands for.
pub open spec fn statement_view(info: PreparedStatementInfo) -> StatementView {
    StatementView { param_types: info.param_types@, columns: views_of(info.columns@) }
}

/// The builders of `columns`, emptied.
pub open spec fn templates(columns: Seq<ColumnView>) -> Seq<ColumnView> {
    Seq::new(columns.len(), |i: int| emptied(columns[i]))
}

/// Every column holds `rows` cells.
pub open spec fn uniform(columns: Seq<ColumnView>, rows: nat) -> bool {
    forall|i: int| 0 <= i < columns.len() ==> (#[trigger] columns[i]).cells.len() == rows
}

/// The columns in progress hold one cell per row, and kept builders are
/// empty.
pub open spec fn well_formed(s: ClientView) -> bool {
    &&& uniform(s.columns, s.rows)
    &&& kept_empty(s.cache)
}

/// Every kept builder is empty.
pub open spec fn kept_empty(cache: Map<Seq<char>, StatementView>) -> bool {
    forall|k: Seq<char>| #[trigger] cache.contains_key(k) ==> uniform(cache[k].columns, 0)
}

/// The session with nothing in progress.
pub open spec fn idle(s: ClientView) -> ClientView {
    ClientView {
        unread: Seq::empty(),
        statement: Seq::empty(),
        first_prepare: false,
        param_types: Seq::empty(),
        columns: Seq::empty(),
        rows: 0,
        pending_error: None,
        ..s
    }
}

/// The session after an exchange that failed.
pub open spec fn failed(s: ClientView) -> ClientView {
    ClientView { healthy: false, ..idle(s) }
}

/// The session without the kept statement of the query in progress.
pub open spec fn evicted(s: ClientView) -> ClientView {
    ClientView { cache: s.cache.remove(s.statement), ..s }
}

/// The session after a query that succeeded: a statement prepared for
/// the first time is kept, if statements are kept at all.
pub open spec fn finished(s: ClientView) -> ClientView {
    ClientView {
        healthy: true,
        cache: if s.first_prepare && s.caching {
            s.cache.insert(
                s.statement,
                StatementView { param_types: s.param_types, columns: templates(s.columns) },
            )
        } else {
            s.cache
        },
        ..idle(s)
    }
}

/// The number of the next portal; after the largest comes zero.
pub open spec fn next_portal(count: u64) -> u64 {
    if count == u64::MAX {
        0
    } else {
        (count + 1) as u64
    }
}

/// The name of the portal with the given number.
pub open spec fn portal_name_text(count: u64) -> Seq<char> {
    seq!['p', 'o', 'r', 't', 'a', 'l', '_'] + decimal(count as nat)
}

/// As many binary format codes as there are parameters.
pub open spec fn binary_codes(n: nat) -> Seq<i16> {
    Seq::new(n, |i: int| BINARY)
}

/// Why the messages of a query cannot be written.
pub enum BuildFault {
    /// A message other than Bind cannot be built.
    Io,
    /// The Bind message cannot be built.
    Bind,
}

/// The bytes written for a query: Parse and Describe where the statement
/// is prepared for the first time, then always Bind, Execute, Close and
/// Sync. All parameters and all result columns are in binary format, the
/// portal is run to its end and then closed.
#[verifier::opaque]
pub open spec fn query_messages(
    first: bool,
    name: Seq<u8>,
    sql: Seq<u8>,
    oids: Seq<u32>,
    portal: Seq<u8>,
    values: Seq<Option<Seq<u8>>>,
) -> Result<Seq<u8>, BuildFault> {
    if first && !(parse_fits(name, sql, oids) && target_fits(STATEMENT, name)) {
        Err(BuildFault::Io)
    } else if !bind_fits(portal, name, binary_codes(values.len()), values, seq![BINARY]) {
        Err(BuildFault::Bind)
    } else if !(execute_fits(portal, 0) && target_fits(PORTAL, portal)) {
        Err(BuildFault::Io)
    } else {
        Ok(
            (if first {
                framed(80, parse_body(name, sql, oids)) + framed(68, target_body(STATEMENT, name))
            } else {
                Seq::empty()
            }) + framed(
                66,
                bind_body(portal, name, binary_codes(values.len()), values, seq![BINARY]),
            ) + framed(69, execute_body(portal, 0)) + framed(67, target_body(PORTAL, portal))
                + framed(83, Seq::empty()),
        )
    }
}

/// The session with a query in progress.
pub open spec fn started(
    s: ClientView,
    name: Seq<char>,
    oids: Seq<u32>,
) -> ClientView {
    ClientView {
        portal_count: next_portal(s.portal_count),
        unread: Seq::empty(),
        statement: name,
        first_prepare: !s.cache.contains_key(name),
        param_types: oids,
        columns: if s.cache.contains_key(name) {
            s.cache[name].columns
        } else {
            Seq::empty()
        },
        rows: 0,
        pending_error: None,
        ..s
    }
}

/// What starting a query under a statement name does to a session. The
/// portal counter moves on in every case. A statement kept under the
/// name with other parameter types refuses the query. Otherwise the
/// messages are written and the query is in progress; where they cannot
/// be written nothing is started, and unless it was Bind that could not
/// be built the session is broken.
pub open spec fn query_start(
    s: ClientView,
    name: Seq<char>,
    sql: Seq<char>,
    params: Seq<Option<BinaryParam>>,
    s2: ClientView,
    r: PgToPlResult<Vec<u8>>,
) -> bool {
    let count = next_portal(s.portal_count);
    let oids = param_oids(params);
    if s.cache.contains_key(name) && s.cache[name].param_types != oids {
        &&& r matches Err(PgToPlError::ParamTypeMismatch)
        &&& s2 == (ClientView { portal_count: count, ..s })
    } else {
        match query_messages(
            !s.cache.contains_key(name),
            encode_utf8(name),
            encode_utf8(sql),
            oids,
            encode_utf8(portal_name_text(count)),
            param_payloads(params),
        ) {
            Ok(bytes) => {
                &&& r matches Ok(out)
                &&& out@ == bytes
                &&& s2 == started(s, name, oids)
            },
            Err(BuildFault::Io) => {
                &&& r matches Err(PgToPlError::Io(_))
                &&& s2 == (ClientView { portal_count: count, healthy: false, ..s })
            },
            Err(BuildFault::Bind) => {
                &&& r matches Err(PgToPlError::BindError)
                &&& s2 == (ClientView { portal_count: count, ..s })
            },
        }
    }
}

/// A name as it is given to a statement that is not kept.
pub open spec fn is_random_name(name: Seq<char>) -> bool {
    &&& name.len() == RANDOM_NAME_LEN
    &&& forall|i: int| 0 <= i < name.len() ==> is_name_char(#[trigger] name[i])
}

/// A character of the names given to statements that are not kept.
pub open spec fn is_name_char(c: char) -> bool {
    ||| c == '_'
    ||| c == '-'
    ||| '0' <= c <= '9'
    ||| 'a' <= c <= 'z'
    ||| 'A' <= c <= 'Z'
}

/// `nanoid::format` with the crate's own random source and URL-safe
/// alphabet: a text of `size` characters, each a letter, a digit, `_` or
/// `-`. Which ones is left to chance.
#[verifier::external_body]
pub(crate) fn random_name(size: usize) -> (r: String)
    requires
        0 < size <= 1024,
    ensures
        r@.len() == size,
        forall|i: int| 0 <= i < r@.len() ==> is_name_char(#[trigger] r@[i]),
{
    nanoid::format(nanoid::rngs::default, &nanoid::alphabet::SAFE, size)
}

/// Whether two lists of type identifiers are the same.
pub fn same_oids(a: &Vec<u32>, b: &Vec<u32>) -> (r: bool)
    ensures
        r == (a@ == b@),
{
    if a.len() != b.len() {
        return false;
    }
    let mut i: usize = 0;
    while i < a.len()
        invariant
            i <= a.len(),
            a.len() == b.len(),
            forall|j: int| 0 <= j < i ==> a@[j] == b@[j],
        decreases a.len() - i,
    {
        if a[i] != b[i] {
            return false;
        }
        i = i + 1;
    }
    assert(a@ =~= b@);
    true
}

impl View for Client {
    type V = ClientView;

    closed spec fn view(&self) -> ClientView {
        ClientView {
            healthy: self.healthy,
            user: self.options.user@,
            password: self.options.password@,
            database: self.options.database@,
            host: self.options.host@,
            port: self.options.port,
            caching: self.options.prepare,
            cache: self.prepared_statements@.map_values(
                |info: PreparedStatementInfo| statement_view(info),
            ),
            portal_count: self.portal_count,
            unread: self.read_buffer@,
            statement: self.statement@,
            first_prepare: self.prepare,
            param_types: self.param_types@,
            columns: views_of(self.columns@),
            rows: self.rows@,
            pending_error: match self.error_to_return {
                Some(e) => Some(e@),
                None => None,
            },
        }
    }
}

impl Client {
    /// The session is as its operations leave it.
    pub open spec fn wf(&self) -> bool {
        well_formed(self@)
    }

    /// A session that has not entered the database yet: not healthy, no
    /// statement kept, no portal opened.
    pub fn new(options: ClientOptions) -> (r: Self)
        ensures
            r.wf(),
            r@ == (ClientView {
                healthy: false,
                user: options.user@,
                password: options.password@,
                database: options.database@,
                host: options.host@,
                port: options.port,
                caching: options.prepare,
                cache: Map::<Seq<char>, StatementView>::empty(),
                portal_count: 0,
                unread: Seq::<u8>::empty(),
                statement: Seq::<char>::empty(),
                first_prepare: false,
                param_types: Seq::<u32>::empty(),
                columns: Seq::<ColumnView>::empty(),
                rows: 0,
                pending_error: None::<Seq<char>>,
            }),
    {
        let r = Client {
            healthy: false,
            options,
            prepared_statements: StringHashMap::new(),
            portal_count: 0,
            read_buffer: Vec::new(),
            statement: String::new(),
            prepare: false,
            param_types: Vec::new(),
            columns: Vec::new(),
            rows: Ghost(0),
            error_to_return: None,
        };
        proof {
            assert(r@.cache =~= Map::<Seq<char>, StatementView>::empty());
            assert(r@.columns =~= Seq::<ColumnView>::empty());
        }
        r
    }

    /// A fresh session with the same options.
    pub fn replace(&self) -> (r: Self)
        ensures
            r.wf(),
            r@ == (ClientView {
                healthy: false,
                cache: Map::<Seq<char>, StatementView>::empty(),
                portal_count: 0,
                ..idle(self@)
            }),
    {
        Client::new(self.options.clone())
    }

    /// Whether the session must not be used again.
    pub fn has_broken(&self) -> (r: bool)
        ensures
            r == !self@.healthy,
    {
        !self.healthy
    }

    /// The options the session was made with.
    pub fn options(&self) -> (r: &ClientOptions)
        ensures
            r.user@ == self@.user,
            r.password@ == self@.password,
            r.database@ == self@.database,
            r.host@ == self@.host,
            r.port == self@.port,
            r.prepare == self@.caching,
    {
        &self.options
    }

    fn mark_unhealthy(&mut self)
        ensures
            final(self)@ == (ClientView { healthy: false, ..old(self)@ }),
    {
        self.healthy = false;
    }

    fn mark_healthy(&mut self)
        ensures
            final(self)@ == (ClientView { healthy: true, ..old(self)@ }),
    {
        self.healthy = true;
    }

    /// Drops what an exchange has left.
    fn reset(&mut self)
        ensures
            final(self)@ == idle(old(self)@),
    {
        self.read_buffer = Vec::new();
        self.statement = String::new();
        self.prepare = false;
        self.param_types = Vec::new();
        self.columns = Vec::new();
        self.rows = Ghost(0);
        self.error_to_return = None;
        proof {
            assert(self@.columns =~= Seq::<ColumnView>::empty());
        }
    }

    /// Ends an exchange that failed.
    fn fail(&mut self)
        ensures
            final(self)@ == failed(old(self)@),
            kept_empty(old(self)@.cache) ==> final(self).wf(),
    {
        self.reset();
        self.mark_unhealthy();
    }
}

/// Keeping a statement keeps the view of every other one.
proof fn lemma_cache_insert(
    m: Map<Seq<char>, PreparedStatementInfo>,
    k: Seq<char>,
    info: PreparedStatementInfo,
)
    ensures
        m.insert(k, info).map_values(|i: PreparedStatementInfo| statement_view(i)) == m.map_values(
            |i: PreparedStatementInfo| statement_view(i),
        ).insert(k, statement_view(info)),
{
    assert(m.insert(k, info).map_values(|i: PreparedStatementInfo| statement_view(i))
        =~= m.map_values(|i: PreparedStatementInfo| statement_view(i)).insert(
        k,
        statement_view(info),
    ));
}

/// Dropping a statement keeps the view of every other one.
proof fn lemma_cache_remove(m: Map<Seq<char>, PreparedStatementInfo>, k: Seq<char>)
    ensures
        m.remove(k).map_values(|i: PreparedStatementInfo| statement_view(i)) == m.map_values(
            |i: PreparedStatementInfo| statement_view(i),
        ).remove(k),
{
    assert(m.remove(k).map_values(|i: PreparedStatementInfo| statement_view(i)) =~= m.map_values(
        |i: PreparedStatementInfo| statement_view(i),
    ).remove(k));
}

/// The name of the portal with the given number.
pub fn portal_name(count: u64) -> (r: String)
    ensures
        r@ == portal_name_text(count),
{
    proof {
        reveal_strlit("portal_");
        assert("portal_"@ =~= seq!['p', 'o', 'r', 't', 'a', 'l', '_']);
    }
    let mut r = String::from_str("portal_");
    let digits = decimal_string(count);
    r.append(digits.as_str());
    r
}

/// As many binary format codes as asked for.
pub fn binary_format_codes(n: usize) -> (r: Vec<i16>)
    ensures
        r@ == binary_codes(n as nat),
{
    let mut r: Vec<i16> = Vec::new();
    while r.len() < n
        invariant
            r@.len() <= n,
            r@ == binary_codes(r@.len()),
        decreases n - r@.len(),
    {
        r.push(BINARY);
        assert(r@ =~= binary_codes(r@.len()));
    }
    r
}

/// Writes the messages of one query.
pub fn write_query(
    first: bool,
    name: &str,
    query: &str,
    param_types: &Vec<u32>,
    portal: &str,
    param_values: &Vec<Option<Vec<u8>>>,
) -> (r: PgToPlResult<Vec<u8>>)
    ensures
        match query_messages(
            first,
            encode_utf8(name@),
            encode_utf8(query@),
            param_types@,
            encode_utf8(portal@),
            payloads_of(param_values@),
        ) {
            Ok(bytes) => r matches Ok(out) && out@ == bytes,
            Err(BuildFault::Io) => r matches Err(PgToPlError::Io(_)),
            Err(BuildFault::Bind) => r matches Err(PgToPlError::BindError),
        },
{
    reveal(query_messages);
    let mut out: Vec<u8> = Vec::new();
    if first {
        let parse = match parse_message(name, query, param_types) {
            Ok(m) => m,
            Err(e) => { return Err(PgToPlError::Io(e)); },
        };
        let describe = match describe_message(STATEMENT, name) {
            Ok(m) => m,
            Err(e) => { return Err(PgToPlError::Io(e)); },
        };
        out.extend_from_slice(parse.as_slice());
        out.extend_from_slice(describe.as_slice());
    }
    let formats = binary_format_codes(param_values.len());
    let mut result_formats: Vec<i16> = Vec::new();
    result_formats.push(BINARY);
    assert(result_formats@ =~= seq![BINARY]);
    assert(payloads_of(param_values@).len() == param_values@.len());
    let bind = match bind_message(portal, name, &formats, param_values, &result_formats) {
        Ok(m) => m,
        Err(_) => { return Err(PgToPlError::BindError); },
    };
    let execute = match execute_message(portal, 0) {
        Ok(m) => m,
        Err(e) => { return Err(PgToPlError::Io(e)); },
    };
    let close = match close_message(PORTAL, portal) {
        Ok(m) => m,
        Err(e) => { return Err(PgToPlError::Io(e)); },
    };
    let sync = sync_message();
    out.extend_from_slice(bind.as_slice());
    out.extend_from_slice(execute.as_slice());
    out.extend_from_slice(close.as_slice());
    out.extend_from_slice(sync.as_slice());
    Ok(out)
}

impl Client {
    /// Takes up the state of a query in progress.
    fn start(
        &mut self,
        name: String,
        prepare: bool,
        param_types: Vec<u32>,
        columns: Vec<ColumnStorage>,
    )
        ensures
            final(self)@ == (ClientView {
                unread: Seq::<u8>::empty(),
                statement: name@,
                first_prepare: prepare,
                param_types: param_types@,
                columns: views_of(columns@),
                rows: 0,
                pending_error: None,
                ..old(self)@
            }),
    {
        self.read_buffer = Vec::new();
        self.statement = name;
        self.prepare = prepare;
        self.param_types = param_types;
        self.columns = columns;
        self.rows = Ghost(0);
        self.error_to_return = None;
    }

    /// Moves the portal counter on and names the next portal.
    fn open_portal(&mut self) -> (r: String)
        ensures
            final(self)@ == (ClientView {
                portal_count: next_portal(old(self)@.portal_count),
                ..old(self)@
            }),
            r@ == portal_name_text(next_portal(old(self)@.portal_count)),
    {
        self.portal_count = self.portal_count.wrapping_add(1);
        portal_name(self.portal_count)
    }

    /// The empty builders kept for a statement, if it is kept with these
    /// parameter types.
    fn lookup(&self, name: &str, param_types: &Vec<u32>) -> (r: Result<
        Option<Vec<ColumnStorage>>,
        PgToPlError,
    >)
        requires
            self.wf(),
        ensures
            match r {
                Ok(Some(columns)) => self@.cache.contains_key(name@) && self@.cache[name@].param_types
                    == param_types@ && views_of(columns@) == self@.cache[name@].columns,
                Ok(None) => !self@.cache.contains_key(name@),
                Err(e) => e is ParamTypeMismatch && self@.cache.contains_key(name@)
                    && self@.cache[name@].param_types != param_types@,
            },
    {
        match self.prepared_statements.get(name) {
            Some(info) => {
                if !same_oids(&info.param_types, param_types) {
                    return Err(PgToPlError::ParamTypeMismatch);
                }
                let columns = clone_storages(&info.columns);
                proof {
                    assert(self.prepared_statements@.contains_key(name@));
                    assert(self@.cache.contains_key(name@));
                    let kept = self@.cache[name@].columns;
                    assert(uniform(kept, 0));
                    assert forall|i: int| 0 <= i < columns@.len() implies views_of(columns@)[i]
                        == kept[i] by {
                        assert(kept[i].cells =~= Seq::<Cell>::empty());
                    }
                    assert(views_of(columns@) =~= kept);
                }
                Ok(Some(columns))
            },
            None => Ok(None),
        }
    }

    /// Starts a query under a given statement name and returns the bytes
    /// to write. The portal counter moves on in every case. A statement
    /// kept under the name with other parameter types refuses the query
    /// and changes nothing else. Where the messages cannot be written
    /// nothing is started: a Bind that cannot be built changes nothing
    /// else, any other such failure leaves the session broken.
    pub fn query_named(
        &mut self,
        name: String,
        query: &str,
        params: Vec<Option<BinaryParam>>,
    ) -> (r: PgToPlResult<Vec<u8>>)
        requires
            old(self).wf(),
        ensures
            final(self).wf(),
            query_start(old(self)@, name@, query@, params@, final(self)@, r),
    {
        let portal = self.open_portal();
        let (param_types, param_values) = format_params(params);
        let found = match self.lookup(name.as_str(), &param_types) {
            Ok(found) => found,
            Err(e) => { return Err(e); },
        };
        let prepare = found.is_none();
        let written = write_query(
            prepare,
            name.as_str(),
            query,
            &param_types,
            portal.as_str(),
            &param_values,
        );
        match written {
            Ok(out) => {
                let columns = match found {
                    Some(columns) => columns,
                    None => Vec::new(),
                };
                proof {
                    if found is None {
                        assert(views_of(columns@) =~= Seq::<ColumnView>::empty());
                    }
                }
                self.start(name, prepare, param_types, columns);
                Ok(out)
            },
            Err(PgToPlError::BindError) => Err(PgToPlError::BindError),
            Err(e) => {
                self.mark_unhealthy();
                Err(e)
            },
        }
    }

    /// Starts a query and returns the bytes to write. Where statements
    /// are kept, the statement is named after the query text; otherwise
    /// it gets a random name of its own, under which nothing is kept.
    pub fn query(&mut self, query: &str, params: Vec<Option<BinaryParam>>) -> (r:
        PgToPlResult<Vec<u8>>)
        requires
            old(self).wf(),
        ensures
            final(self).wf(),
            if old(self)@.caching {
                query_start(
                    old(self)@,
                    statement_name_text(query@),
                    query@,
                    params@,
                    final(self)@,
                    r,
                )
            } else {
                exists|name: Seq<char>|
                    is_random_name(name) && #[trigger] query_start(
                        old(self)@,
                        name,
                        query@,
                        params@,
                        final(self)@,
                        r,
                    )
            },
            r matches Err(e) ==> (e is ParamTypeMismatch || e is BindError || e is Io),
            r is Ok ==> final(self)@.healthy == old(self)@.healthy,
            r matches Err(PgToPlError::Io(_)) ==> !final(self)@.healthy,
    {
        let name = if self.options.prepare {
            statement_name(query)
        } else {
            random_name(RANDOM_NAME_LEN)
        };
        let ghost chosen = name@;
        let r = self.query_named(name, query, params);
        proof {
            if !old(self)@.caching {
                assert(is_random_name(chosen));
                assert(query_start(old(self)@, chosen, query@, params@, self@, r));
            }
        }
        r
    }
}

/// Empty columns as a row description asks for them.
pub open spec fn described(fields: Seq<FieldView>) -> Seq<ColumnView> {
    Seq::new(
        fields.len(),
        |i: int|
            ColumnView {
                name: fields[i].name,
                kind: kind_of_oid(fields[i].type_oid),
                cells: Seq::<Cell>::empty(),
            },
    )
}

/// The columns with the cells of one row at their ends.
pub open spec fn with_row(columns: Seq<ColumnView>, row: Seq<Option<Seq<u8>>>) -> Seq<ColumnView> {
    Seq::new(
        columns.len(),
        |i: int| extended(columns[i], decode_cell(columns[i].kind, row[i])->Ok_0),
    )
}

/// The text of a server error.
pub open spec fn error_text(err: ErrorView) -> Seq<char> {
    joined_lines(error_lines(err))
}

/// The row has one value for each column, and every column can decode
/// its value.
pub open spec fn row_fits(s: ClientView, cells: Seq<Option<Seq<u8>>>, more: bool) -> bool {
    &&& cells.len() == s.columns.len()
    &&& !more
    &&& first_fault(s.columns, cells, 0) == s.columns.len()
}

/// How a data row that does not fit ends a query. A row with fewer or
/// more values than there are columns takes the kept statement away; an
/// array that cannot be read is reported as it is.
pub open spec fn row_end(
    s: ClientView,
    cells: Seq<Option<Seq<u8>>>,
    more: bool,
    s2: ClientView,
    r: PgToPlResult<Vec<ColumnStorage>>,
) -> bool {
    let n = s.columns.len();
    if cells.len() < n {
        &&& r matches Err(PgToPlError::TooFewField(a, b))
        &&& a == cells.len()
        &&& b == n
        &&& s2 == failed(evicted(s))
    } else if more || cells.len() > n {
        &&& r matches Err(PgToPlError::TooManyField(b))
        &&& b == n
        &&& s2 == failed(evicted(s))
    } else {
        let stop = first_fault(s.columns, cells, 0);
        &&& stop < n
        &&& r matches Err(e)
        &&& reports(e, decode_cell(s.columns[stop].kind, cells[stop])->Err_0)
        &&& s2 == failed(s)
    }
}

/// The session after a message that a query in progress takes in and
/// goes on from; none where the message ends the query. A row
/// description starts the columns afresh, a row that fits is appended,
/// the first error of the server is kept for the end, and any other
/// message but `NoData` and `ReadyForQuery` is passed over.
pub open spec fn query_more(s: ClientView, msg: MessageView) -> Option<ClientView> {
    match msg {
        MessageView::RowDescription(fields) => Some(
            ClientView { columns: described(fields), rows: 0, ..s },
        ),
        MessageView::DataRow(cells, more) => if row_fits(s, cells, more) {
            Some(ClientView { columns: with_row(s.columns, cells), rows: s.rows + 1, ..s })
        } else {
            None
        },
        MessageView::NoData => None,
        MessageView::ReadyForQuery => None,
        MessageView::ErrorResponse(err) => Some(
            ClientView {
                pending_error: match s.pending_error {
                    Some(text) => Some(text),
                    None => Some(error_text(err)),
                },
                ..s
            },
        ),
        _ => Some(s),
    }
}

/// How a message ends a query in progress. `NoData` ends it well, and so
/// does `ReadyForQuery` unless the server has reported an error, which is
/// then the result; a data row that does not fit ends it badly.
pub open spec fn query_end(
    s: ClientView,
    msg: MessageView,
    s2: ClientView,
    r: PgToPlResult<Vec<ColumnStorage>>,
) -> bool {
    match msg {
        MessageView::DataRow(cells, more) => row_end(s, cells, more, s2, r),
        MessageView::NoData => {
            &&& r matches Ok(columns)
            &&& views_of(columns@) == s.columns
            &&& s2 == finished(s)
        },
        MessageView::ReadyForQuery => match s.pending_error {
            Some(text) => {
                &&& r matches Err(PgToPlError::QueryError(m))
                &&& m@ == text
                &&& s2 == failed(s)
            },
            None => {
                &&& r matches Ok(columns)
                &&& views_of(columns@) == s.columns
                &&& s2 == finished(s)
            },
        },
        _ => false,
    }
}

/// What one message does to a query in progress.
pub open spec fn query_step(
    s: ClientView,
    msg: MessageView,
    s2: ClientView,
    r: Step<Vec<ColumnStorage>>,
) -> bool {
    match query_more(s, msg) {
        Some(next) => {
            &&& r matches Step::More(out)
            &&& out@.len() == 0
            &&& s2 == next
        },
        None => r matches Step::Done(end) && query_end(s, msg, s2, end),
    }
}

/// The session with other bytes unread.
pub open spec fn with_unread(s: ClientView, unread: Seq<u8>) -> ClientView {
    ClientView { unread, ..s }
}

/// The session with `bytes` received behind what was unread.
pub open spec fn received(s: ClientView, bytes: Seq<u8>) -> ClientView {
    ClientView { unread: s.unread + bytes, ..s }
}

/// What the unread bytes do to a query in progress: the whole messages
/// among them are taken in one after the other, each leaving the bytes
/// behind it unread, until one ends the query, one is refused, which
/// breaks the session, or less than a whole message is left, for which
/// the query waits.
pub open spec fn query_run(s: ClientView, s2: ClientView, r: Step<Vec<ColumnStorage>>) -> bool
    decreases s.unread.len(),
{
    match next_in(s.unread, s.columns.len() as usize) {
        Next::Wait => {
            &&& r matches Step::More(out)
            &&& out@.len() == 0
            &&& s2 == s
        },
        Next::Refused => {
            &&& r matches Step::Done(Err(PgToPlError::Io(_)))
            &&& s2 == failed(s)
        },
        Next::Message(msg, rest) => match query_more(with_unread(s, rest), msg) {
            Some(next) => if rest.len() < s.unread.len() {
                query_run(with_unread(next, rest), s2, r)
            } else {
                false
            },
            None => r matches Step::Done(end) && query_end(with_unread(s, rest), msg, s2, end),
        },
    }
}

/// The step ends an exchange well with the session healthy, or badly
/// with the session broken, or does not end it.
pub open spec fn health_follows<T>(s2: ClientView, r: Step<T>) -> bool {
    match r {
        Step::Done(Ok(_)) => s2.healthy,
        Step::Done(Err(_)) => !s2.healthy,
        Step::More(_) => true,
    }
}

/// The first fault lies among the columns from `from` on, or there is
/// none.
pub proof fn lemma_first_fault_range(
    columns: Seq<ColumnView>,
    row: Seq<Option<Seq<u8>>>,
    from: int,
)
    requires
        0 <= from <= columns.len(),
    ensures
        from <= first_fault(columns, row, from) <= columns.len(),
    decreases columns.len() - from,
{
    if from < columns.len() && !(decode_cell(columns[from].kind, row[from]) is Err) {
        lemma_first_fault_range(columns, row, from + 1);
    }
}

/// The bytes behind a whole message are fewer than the bytes with it.
pub proof fn lemma_next_leaves_less(bytes: Seq<u8>, expected: usize)
    ensures
        next_in(bytes, expected) matches Next::Message(_, rest) ==> rest.len() < bytes.len(),
{
}

impl Client {
    /// Ends a query that succeeded and hands out its columns.
    fn finish(&mut self) -> (r: Vec<ColumnStorage>)
        requires
            old(self).wf(),
        ensures
            final(self).wf(),
            views_of(r@) == old(self)@.columns,
            final(self)@ == finished(old(self)@),
    {
        let mut columns: Vec<ColumnStorage> = Vec::new();
        std::mem::swap(&mut columns, &mut self.columns);
        if self.prepare && self.options.prepare {
            let mut param_types: Vec<u32> = Vec::new();
            std::mem::swap(&mut param_types, &mut self.param_types);
            let name = self.statement.clone();
            let kept = clone_storages(&columns);
            proof {
                assert(views_of(kept@) =~= templates(views_of(columns@)));
                assert(uniform(views_of(kept@), 0));
            }
            let info = PreparedStatementInfo { param_types, columns: kept };
            proof {
                lemma_cache_insert(self.prepared_statements@, name@, info);
            }
            self.prepared_statements.insert(name, info);
        }
        self.reset();
        self.mark_healthy();
        columns
    }

    /// Drops the kept statement of the query in progress.
    fn evict(&mut self)
        requires
            old(self).wf(),
        ensures
            final(self).wf(),
            final(self)@ == evicted(old(self)@),
    {
        proof {
            lemma_cache_remove(self.prepared_statements@, self.statement@);
        }
        self.prepared_statements.remove(self.statement.as_str());
    }

    /// Takes one data row into the columns in progress.
    fn on_data_row(&mut self, row: DataRow) -> (r: Step<Vec<ColumnStorage>>)
        requires
            old(self).wf(),
        ensures
            final(self).wf(),
            query_step(
                old(self)@,
                MessageView::DataRow(row_of(row.cells@), row.more),
                final(self)@,
                r,
            ),
    {
        let n = self.columns.len();
        let ghost cells = row_of(row.cells@);
        assert(cells.len() == row.cells@.len());
        proof {
            lemma_first_fault_range(self@.columns, cells, 0);
        }
        if row.cells.len() < n {
            self.evict();
            self.fail();
            return Step::Done(Err(PgToPlError::TooFewField(row.cells.len(), n)));
        }
        if row.more || row.cells.len() > n {
            self.evict();
            self.fail();
            return Step::Done(Err(PgToPlError::TooManyField(n)));
        }
        let ghost before = self@;
        let pushed = push_row(&mut self.columns, &row.cells);
        assert(self@ == (ClientView { columns: views_of(self.columns@), ..before }));
        match pushed {
            Ok(()) => {
                self.rows = Ghost((self.rows@ + 1) as nat);
                proof {
                    assert(views_of(self.columns@) =~= with_row(before.columns, cells));
                    assert forall|i: int| 0 <= i < self@.columns.len() implies (
                    #[trigger] self@.columns[i]).cells.len() == before.rows + 1 by {
                        assert(before.columns[i].cells.len() == before.rows);
                    }
                }
                Step::More(Vec::new())
            },
            Err(e) => {
                self.fail();
                Step::Done(Err(e))
            },
        }
    }

    /// Takes one message of the server into a query in progress.
    pub fn on_query_message(&mut self, msg: BackendMessage) -> (r: Step<Vec<ColumnStorage>>)
        requires
            old(self).wf(),
        ensures
            final(self).wf(),
            query_step(old(self)@, msg@, final(self)@, r),
            health_follows(final(self)@, r),
            r matches Step::Done(Ok(columns)) ==> uniform(views_of(columns@), old(self)@.rows),
    {
        match msg {
            BackendMessage::RowDescription(fields) => {
                self.columns = columns_from_fields(&fields);
                self.rows = Ghost(0);
                proof {
                    assert(views_of(self.columns@) =~= described(fields_view(fields@)));
                }
                Step::More(Vec::new())
            },
            BackendMessage::DataRow(row) => self.on_data_row(row),
            BackendMessage::NoData => Step::Done(Ok(self.finish())),
            BackendMessage::ReadyForQuery => {
                let pending = self.error_to_return.take();
                assert(self@ == (ClientView { pending_error: None, ..old(self)@ }));
                match pending {
                    Some(text) => {
                        self.fail();
                        Step::Done(Err(PgToPlError::QueryError(text)))
                    },
                    None => Step::Done(Ok(self.finish())),
                }
            },
            BackendMessage::ErrorResponse(err) => {
                if self.error_to_return.is_none() {
                    self.error_to_return = Some(error_to_string(&err));
                }
                Step::More(Vec::new())
            },
            _ => Step::More(Vec::new()),
        }
    }

    /// Tells the session that reading or writing failed, and wraps the
    /// failure: the exchange is over and the session is broken.
    pub fn io_failed(&mut self, e: std::io::Error) -> (r: PgToPlError)
        ensures
            r matches PgToPlError::Io(_),
            final(self)@ == failed(old(self)@),
            kept_empty(old(self)@.cache) ==> final(self).wf(),
    {
        self.fail();
        PgToPlError::Io(e)
    }

    /// Takes the bytes of one read into a query in progress and handles
    /// every whole message among what has been received. A read of no
    /// bytes means that the server has closed the connection, which
    /// breaks the session.
    pub fn query_feed(&mut self, bytes: &[u8]) -> (r: Step<Vec<ColumnStorage>>)
        requires
            old(self).wf(),
        ensures
            final(self).wf(),
            if bytes@.len() == 0 {
                &&& r matches Step::Done(Err(PgToPlError::ConnectionClosed))
                &&& final(self)@ == failed(old(self)@)
            } else {
                query_run(received(old(self)@, bytes@), final(self)@, r)
            },
            health_follows(final(self)@, r),
            r matches Step::Done(Ok(columns)) ==> exists|rows: nat|
                uniform(views_of(columns@), rows),
    {
        if bytes.len() == 0 {
            self.fail();
            return Step::Done(Err(PgToPlError::ConnectionClosed));
        }
        self.read_buffer.extend_from_slice(bytes);
        assert(self@.unread =~= old(self)@.unread + bytes@);
        assert(self@ == received(old(self)@, bytes@));
        loop
            invariant
                self.wf(),
                bytes@.len() > 0,
                forall|s2: ClientView, r: Step<Vec<ColumnStorage>>| #[trigger]
                    query_run(self@, s2, r) ==> query_run(received(old(self)@, bytes@), s2, r),
            decreases self.read_buffer@.len(),
        {
            let ghost before = self@;
            let expected = self.columns.len();
            assert(expected == before.columns.len() as usize);
            proof {
                lemma_next_leaves_less(before.unread, expected);
            }
            let next = next_message(&mut self.read_buffer, expected);
            assert(self@ == with_unread(before, self@.unread));
            match next {
                Err(e) => {
                    self.fail();
                    let r = Step::Done(Err(PgToPlError::Io(e)));
                    assert(query_run(before, self@, r));
                    return r;
                },
                Ok(None) => {
                    let r = Step::More(Vec::new());
                    assert(query_run(before, self@, r));
                    return r;
                },
                Ok(Some(msg)) => {
                    let ghost now = self@;
                    match self.on_query_message(msg) {
                        Step::Done(end) => {
                            let r = Step::Done(end);
                            proof {
                                assert(query_run(before, self@, r));
                                if end is Ok {
                                    assert(uniform(views_of(end->Ok_0@), now.rows));
                                }
                            }
                            return r;
                        },
                        Step::More(_) => {
                            proof {
                                assert(self@ == with_unread(self@, now.unread));
                                assert forall|s2: ClientView, r: Step<Vec<ColumnStorage>>| #[trigger]
                                    query_run(self@, s2, r) implies query_run(before, s2, r) by {}
                            }
                        },
                    }
                },
            }
        }
    }
}

/// The name of the startup parameter that holds the account.
pub open spec fn user_key() -> Seq<char> {
    seq!['u', 's', 'e', 'r']
}

/// The name of the startup parameter that holds the database.
pub open spec fn database_key() -> Seq<char> {
    seq!['d', 'a', 't', 'a', 'b', 'a', 's', 'e']
}

/// The query that a ping sends.
pub open spec fn ping_text() -> Seq<char> {
    seq![
        '/',
        '*',
        ' ',
        'p',
        'i',
        'n',
        'g',
        ' ',
        '*',
        '/',
        ' ',
        'S',
        'E',
        'L',
        'E',
        'C',
        'T',
        ' ',
        '1',
    ]
}

/// The answer that a server gets when it asks for the password: the
/// password as it is, or hashed with the salt that came with the request.
pub open spec fn password_answer(s: ClientView, msg: MessageView) -> Option<Seq<u8>> {
    match msg {
        MessageView::AuthenticationCleartextPassword => Some(encode_utf8(s.password)),
        MessageView::AuthenticationMd5Password(salt) => Some(
            encode_utf8(md5_hash_text(s.user, s.password, salt)),
        ),
        _ => None,
    }
}

/// The session after a message that a handshake in progress takes in and
/// goes on from, and the bytes to write in answer; none where the message
/// ends the handshake. A request for the password is answered with a
/// password message, and any message but an error, a request for a SASL
/// exchange and `ReadyForQuery` is passed over.
pub open spec fn connect_more(s: ClientView, msg: MessageView) -> Option<(ClientView, Seq<u8>)> {
    match msg {
        MessageView::ReadyForQuery => None,
        MessageView::ErrorResponse(_) => None,
        MessageView::AuthenticationSasl => None,
        MessageView::AuthenticationCleartextPassword | MessageView::AuthenticationMd5Password(_) => {
            let answer = password_answer(s, msg)->Some_0;
            if text_fits(answer) {
                Some((s, framed(112, cstr(answer))))
            } else {
                None
            }
        },
        _ => Some((s, Seq::<u8>::empty())),
    }
}

/// What a server is told that asks for a SASL exchange.
pub open spec fn sasl_refusal() -> Seq<char> {
    "SASL authentication is not supported"@
}

/// How a message ends a handshake in progress. The first `ReadyForQuery`
/// makes the session healthy. An error of the server, a request for a
/// SASL exchange, which is refused, and a password that cannot be written
/// leave it broken.
pub open spec fn connect_end(
    s: ClientView,
    msg: MessageView,
    s2: ClientView,
    r: PgToPlResult<()>,
) -> bool {
    match msg {
        MessageView::ReadyForQuery => {
            &&& r is Ok
            &&& s2 == (ClientView { healthy: true, ..idle(s) })
        },
        MessageView::ErrorResponse(err) => {
            &&& r matches Err(PgToPlError::QueryError(m))
            &&& m@ == error_text(err)
            &&& s2 == failed(s)
        },
        MessageView::AuthenticationSasl => {
            &&& r matches Err(PgToPlError::QueryError(m))
            &&& m@ == sasl_refusal()
            &&& s2 == failed(s)
        },
        MessageView::AuthenticationCleartextPassword | MessageView::AuthenticationMd5Password(_) => {
            &&& r matches Err(PgToPlError::Io(_))
            &&& s2 == failed(s)
        },
        _ => false,
    }
}

/// What one message does to a handshake in progress.
pub open spec fn connect_step(s: ClientView, msg: MessageView, s2: ClientView, r: Step<()>) -> bool {
    match connect_more(s, msg) {
        Some((next, answer)) => {
            &&& r matches Step::More(out)
            &&& out@ == answer
            &&& s2 == next
        },
        None => r matches Step::Done(end) && connect_end(s, msg, s2, end),
    }
}

/// What the unread bytes do to a handshake in progress, `written` being
/// the answers to the messages before them: the whole messages are taken
/// in one after the other and their answers put together, until one ends
/// the handshake, one is refused, which breaks the session, or less than
/// a whole message is left, for which the handshake waits.
pub open spec fn connect_run(s: ClientView, written: Seq<u8>, s2: ClientView, r: Step<()>) -> bool
    decreases s.unread.len(),
{
    match next_in(s.unread, 0) {
        Next::Wait => {
            &&& r matches Step::More(out)
            &&& out@ == written
            &&& s2 == s
        },
        Next::Refused => {
            &&& r matches Step::Done(Err(PgToPlError::Io(_)))
            &&& s2 == failed(s)
        },
        Next::Message(msg, rest) => match connect_more(with_unread(s, rest), msg) {
            Some((next, answer)) => if rest.len() < s.unread.len() {
                connect_run(with_unread(next, rest), written + answer, s2, r)
            } else {
                false
            },
            None => r matches Step::Done(end) && connect_end(with_unread(s, rest), msg, s2, end),
        },
    }
}

/// The session after a message that a ping in progress passes over; none
/// where the message ends the ping.
pub open spec fn ping_more(s: ClientView, msg: MessageView) -> Option<ClientView> {
    match msg {
        MessageView::ReadyForQuery => None,
        MessageView::ErrorResponse(_) => None,
        _ => Some(s),
    }
}

/// How a message ends a ping in progress: `ReadyForQuery` makes the
/// session healthy, an error of the server leaves it broken.
pub open spec fn ping_end(s: ClientView, msg: MessageView, s2: ClientView, r: PgToPlResult<()>) -> bool {
    match msg {
        MessageView::ReadyForQuery => {
            &&& r is Ok
            &&& s2 == (ClientView { healthy: true, ..idle(s) })
        },
        MessageView::ErrorResponse(err) => {
            &&& r matches Err(PgToPlError::PingFailed(m))
            &&& m@ == error_text(err)
            &&& s2 == failed(s)
        },
        _ => false,
    }
}

/// What one message does to a ping in progress.
pub open spec fn ping_step(s: ClientView, msg: MessageView, s2: ClientView, r: Step<()>) -> bool {
    match ping_more(s, msg) {
        Some(next) => {
            &&& r matches Step::More(out)
            &&& out@.len() == 0
            &&& s2 == next
        },
        None => r matches Step::Done(end) && ping_end(s, msg, s2, end),
    }
}

/// What the unread bytes do to a ping in progress: the whole messages are
/// taken in one after the other until one ends the ping, one is refused,
/// which breaks the session, or less than a whole message is left, for
/// which the ping waits.
pub open spec fn ping_run(s: ClientView, s2: ClientView, r: Step<()>) -> bool
    decreases s.unread.len(),
{
    match next_in(s.unread, 0) {
        Next::Wait => {
            &&& r matches Step::More(out)
            &&& out@.len() == 0
            &&& s2 == s
        },
        Next::Refused => {
            &&& r matches Step::Done(Err(PgToPlError::Io(_)))
            &&& s2 == failed(s)
        },
        Next::Message(msg, rest) => match ping_more(with_unread(s, rest), msg) {
            Some(next) => if rest.len() < s.unread.len() {
                ping_run(with_unread(next, rest), s2, r)
            } else {
                false
            },
            None => r matches Step::Done(end) && ping_end(with_unread(s, rest), msg, s2, end),
        },
    }
}

impl Client {
    /// Starts the handshake and returns the startup message to write: the
    /// account and the database under their parameter names. A name with
    /// a zero byte in it cannot be written and leaves the session broken.
    pub fn connect(&mut self) -> (r: PgToPlResult<Vec<u8>>)
        requires
            old(self).wf(),
        ensures
            final(self).wf(),
            if startup_fits(
                encode_utf8(user_key()),
                encode_utf8(old(self)@.user),
                encode_utf8(database_key()),
                encode_utf8(old(self)@.database),
            ) {
                &&& r matches Ok(out)
                &&& out@ == sized(
                    startup_body(
                        encode_utf8(user_key()),
                        encode_utf8(old(self)@.user),
                        encode_utf8(database_key()),
                        encode_utf8(old(self)@.database),
                    ),
                )
                &&& final(self)@ == idle(old(self)@)
            } else {
                &&& r matches Err(PgToPlError::Io(_))
                &&& final(self)@ == failed(old(self)@)
            },
    {
        proof {
            reveal_strlit("user");
            reveal_strlit("database");
            assert("user"@ =~= user_key());
            assert("database"@ =~= database_key());
        }
        let written = startup_message(
            "user",
            self.options.user.as_str(),
            "database",
            self.options.database.as_str(),
        );
        match written {
            Ok(out) => {
                self.reset();
                Ok(out)
            },
            Err(e) => {
                self.fail();
                Err(PgToPlError::Io(e))
            },
        }
    }

    /// Answers a request for the password.
    fn send_password(&mut self, answer: &[u8]) -> (r: Step<()>)
        requires
            old(self).wf(),
        ensures
            final(self).wf(),
            if text_fits(answer@) {
                &&& r matches Step::More(out)
                &&& out@ == framed(112, cstr(answer@))
                &&& final(self)@ == old(self)@
            } else {
                &&& r matches Step::Done(Err(PgToPlError::Io(_)))
                &&& final(self)@ == failed(old(self)@)
            },
    {
        match password_message(answer) {
            Ok(out) => Step::More(out),
            Err(e) => {
                self.fail();
                Step::Done(Err(PgToPlError::Io(e)))
            },
        }
    }

    /// Takes one message of the server into a handshake in progress. A
    /// request for the hashed password is always answered.
    pub fn on_connect_message(&mut self, msg: BackendMessage) -> (r: Step<()>)
        requires
            old(self).wf(),
        ensures
            final(self).wf(),
            connect_step(old(self)@, msg@, final(self)@, r),
            health_follows(final(self)@, r),
            msg is AuthenticationMd5Password ==> r is More,
    {
        match msg {
            BackendMessage::ReadyForQuery => {
                self.reset();
                self.mark_healthy();
                Step::Done(Ok(()))
            },
            BackendMessage::ErrorResponse(err) => {
                let text = error_to_string(&err);
                self.fail();
                Step::Done(Err(PgToPlError::QueryError(text)))
            },
            BackendMessage::AuthenticationCleartextPassword => {
                let password = self.options.password.clone();
                self.send_password(password.as_str().as_bytes())
            },
            BackendMessage::AuthenticationMd5Password(salt) => {
                let hash = md5_hash(
                    self.options.user.as_str(),
                    self.options.password.as_str(),
                    &salt,
                );
                self.send_password(hash.as_str().as_bytes())
            },
            BackendMessage::AuthenticationSasl => {
                self.fail();
                Step::Done(
                    Err(
                        PgToPlError::QueryError(
                            String::from_str("SASL authentication is not supported"),
                        ),
                    ),
                )
            },
            _ => Step::More(Vec::new()),
        }
    }

    /// Takes the bytes of one read into a handshake in progress and
    /// handles every whole message among what has been received. A read
    /// of no bytes means that the server has closed the connection, which
    /// breaks the session.
    pub fn connect_feed(&mut self, bytes: &[u8]) -> (r: Step<()>)
        requires
            old(self).wf(),
        ensures
            final(self).wf(),
            if bytes@.len() == 0 {
                &&& r matches Step::Done(Err(PgToPlError::ConnectionClosed))
                &&& final(self)@ == failed(old(self)@)
            } else {
                connect_run(received(old(self)@, bytes@), Seq::<u8>::empty(), final(self)@, r)
            },
            health_follows(final(self)@, r),
    {
        if bytes.len() == 0 {
            self.fail();
            return Step::Done(Err(PgToPlError::ConnectionClosed));
        }
        self.read_buffer.extend_from_slice(bytes);
        assert(self@.unread =~= old(self)@.unread + bytes@);
        assert(self@ == received(old(self)@, bytes@));
        let mut to_write: Vec<u8> = Vec::new();
        loop
            invariant
                self.wf(),
                bytes@.len() > 0,
                forall|s2: ClientView, r: Step<()>| #[trigger]
                    connect_run(self@, to_write@, s2, r) ==> connect_run(
                        received(old(self)@, bytes@),
                        Seq::<u8>::empty(),
                        s2,
                        r,
                    ),
            decreases self.read_buffer@.len(),
        {
            let ghost before = self@;
            let ghost written = to_write@;
            proof {
                lemma_next_leaves_less(before.unread, 0);
            }
            let next = next_message(&mut self.read_buffer, 0);
            assert(self@ == with_unread(before, self@.unread));
            match next {
                Err(e) => {
                    self.fail();
                    let r = Step::Done(Err(PgToPlError::Io(e)));
                    assert(connect_run(before, written, self@, r));
                    return r;
                },
                Ok(None) => {
                    let r = Step::More(to_write);
                    assert(connect_run(before, written, self@, r));
                    return r;
                },
                Ok(Some(msg)) => {
                    let ghost now = self@;
                    let ghost message = msg@;
                    match self.on_connect_message(msg) {
                        Step::Done(end) => {
                            let r = Step::Done(end);
                            assert(connect_run(before, written, self@, r));
                            return r;
                        },
                        Step::More(out) => {
                            to_write.extend_from_slice(out.as_slice());
                            proof {
                                assert(connect_more(now, message) == Some((self@, out@)));
                                assert(to_write@ =~= written + out@);
                                assert(self@ == with_unread(self@, now.unread));
                                assert forall|s2: ClientView, r: Step<()>| #[trigger]
                                    connect_run(self@, to_write@, s2, r) implies connect_run(
                                    before,
                                    written,
                                    s2,
                                    r,
                                ) by {}
                            }
                        },
                    }
                },
            }
        }
    }

    /// Starts a ping and returns the simple query to write.
    pub fn ping(&mut self) -> (r: PgToPlResult<Vec<u8>>)
        requires
            old(self).wf(),
        ensures
            final(self).wf(),
            r matches Ok(out) && out@ == framed(81, cstr(encode_utf8(ping_text()))),
            final(self)@ == idle(old(self)@),
    {
        proof {
            reveal_strlit("/* ping */ SELECT 1");
            assert("/* ping */ SELECT 1"@ =~= ping_text());
            lemma_plain_bytes(ping_text());
        }
        match query_message("/* ping */ SELECT 1") {
            Ok(out) => {
                self.reset();
                Ok(out)
            },
            Err(e) => {
                self.fail();
                Err(PgToPlError::Io(e))
            },
        }
    }

    /// Takes one message of the server into a ping in progress.
    pub fn on_ping_message(&mut self, msg: BackendMessage) -> (r: Step<()>)
        requires
            old(self).wf(),
        ensures
            final(self).wf(),
            ping_step(old(self)@, msg@, final(self)@, r),
            health_follows(final(self)@, r),
    {
        match msg {
            BackendMessage::ReadyForQuery => {
                self.reset();
                self.mark_healthy();
                Step::Done(Ok(()))
            },
            BackendMessage::ErrorResponse(err) => {
                let text = error_to_string(&err);
                self.fail();
                Step::Done(Err(PgToPlError::PingFailed(text)))
            },
            _ => Step::More(Vec::new()),
        }
    }

    /// Takes the bytes of one read into a ping in progress and handles
    /// every whole message among what has been received. A read of no
    /// bytes means that the server has closed the connection, which
    /// breaks the session.
    pub fn ping_feed(&mut self, bytes: &[u8]) -> (r: Step<()>)
        requires
            old(self).wf(),
        ensures
            final(self).wf(),
            if bytes@.len() == 0 {
                &&& r matches Step::Done(Err(PgToPlError::ConnectionClosed))
                &&& final(self)@ == failed(old(self)@)
            } else {
                ping_run(received(old(self)@, bytes@), final(self)@, r)
            },
            health_follows(final(self)@, r),
    {
        if bytes.len() == 0 {
            self.fail();
            return Step::Done(Err(PgToPlError::ConnectionClosed));
        }
        self.read_buffer.extend_from_slice(bytes);
        assert(self@.unread =~= old(self)@.unread + bytes@);
        assert(self@ == received(old(self)@, bytes@));
        loop
            invariant
                self.wf(),
                bytes@.len() > 0,
                forall|s2: ClientView, r: Step<()>| #[trigger]
                    ping_run(self@, s2, r) ==> ping_run(received(old(self)@, bytes@), s2, r),
            decreases self.read_buffer@.len(),
        {
            let ghost before = self@;
            proof {
                lemma_next_leaves_less(before.unread, 0);
            }
            let next = next_message(&mut self.read_buffer, 0);
            assert(self@ == with_unread(before, self@.unread));
            match next {
                Err(e) => {
                    self.fail();
                    let r = Step::Done(Err(PgToPlError::Io(e)));
                    assert(ping_run(before, self@, r));
                    return r;
                },
                Ok(None) => {
                    let r = Step::More(Vec::new());
                    assert(ping_run(before, self@, r));
                    return r;
                },
                Ok(Some(msg)) => {
                    let ghost now = self@;
                    match self.on_ping_message(msg) {
                        Step::Done(end) => {
                            let r = Step::Done(end);
                            assert(ping_run(before, self@, r));
                            return r;
                        },
                        Step::More(_) => {
                            proof {
                                assert(self@ == with_unread(self@, now.unread));
                                assert forall|s2: ClientView, r: Step<()>| #[trigger]
                                    ping_run(self@, s2, r) implies ping_run(before, s2, r) by {}
                            }
                        },
                    }
                },
            }
        }
    }
}

} // verus!

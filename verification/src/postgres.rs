//! Settings of a snapshot store kept in a PostgreSQL table.

use crate::seq_no::{SeqNo, ZeroSeqNoError};
use vstd::prelude::*;
use vstd::string::*;

verus! {

/// Configuration for a snapshot store in a PostgreSQL table.
#[derive(Debug)]
pub struct Config {
    host: String,
    port: u16,
    user: String,
    password: String,
    dbname: String,
    sslmode: String,
    snapshots_table: String,
    setup: bool,
}

/// What a [`Config`] holds, as plain values.
pub struct ConfigView {
    /// Host name of the database server.
    pub host: Seq<char>,
    /// Port of the database server.
    pub port: u16,
    /// Database user.
    pub user: Seq<char>,
    /// Password of the database user.
    pub password: Seq<char>,
    /// Name of the database.
    pub dbname: Seq<char>,
    /// TLS mode of the connection.
    pub sslmode: Seq<char>,
    /// Name of the table that holds the snapshots.
    pub snapshots_table: Seq<char>,
    /// Whether the table is to be created when the store is made.
    pub setup: bool,
}

impl View for Config {
    type V = ConfigView;

    closed spec fn view(&self) -> ConfigView {
        ConfigView {
            host: self.host@,
            port: self.port,
            user: self.user@,
            password: self.password@,
            dbname: self.dbname@,
            sslmode: self.sslmode@,
            snapshots_table: self.snapshots_table@,
            setup: self.setup,
        }
    }
}

/// The character of the decimal digit `d`.
pub open spec fn digit(d: nat) -> char
    recommends
        d < 10,
{
    (48 + d) as u8 as char
}

/// The decimal numeral of `n`, without sign or leading zeros.
pub open spec fn decimal(n: nat) -> Seq<char>
    decreases n,
{
    if n < 10 {
        seq![digit(n)]
    } else {
        decimal(n / 10).push(digit(n % 10))
    }
}

/// The connection string of a configuration: its six connection settings as
/// `key=value` pairs, separated by single spaces.
pub open spec fn cnn_text(config: ConfigView) -> Seq<char> {
    "host="@ + config.host + " port="@ + decimal(config.port as nat) + " user="@ + config.user
        + " password="@ + config.password + " dbname="@ + config.dbname + " sslmode="@
        + config.sslmode
}

fn digit_str(d: u16) -> (text: &'static str)
    requires
        d < 10,
    ensures
        text@ == seq![digit(d as nat)],
{
    proof {
        reveal_strlit("0");
        reveal_strlit("1");
        reveal_strlit("2");
        reveal_strlit("3");
        reveal_strlit("4");
        reveal_strlit("5");
        reveal_strlit("6");
        reveal_strlit("7");
        reveal_strlit("8");
        reveal_strlit("9");
    }
    let text = match d {
        0 => "0",
        1 => "1",
        2 => "2",
        3 => "3",
        4 => "4",
        5 => "5",
        6 => "6",
        7 => "7",
        8 => "8",
        _ => "9",
    };
    assert(text@ =~= seq![digit(d as nat)]);
    text
}

fn port_text(port: u16) -> (text: String)
    ensures
        text@ == decimal(port as nat),
    decreases port,
{
    if port < 10 {
        String::from_str(digit_str(port))
    } else {
        let mut text = port_text(port / 10);
        text.append(digit_str(port % 10));
        text
    }
}

impl Config {
    /// A configuration with the given values.
    pub fn new(
        host: String,
        port: u16,
        user: String,
        password: String,
        dbname: String,
        sslmode: String,
        snapshots_table: String,
        setup: bool,
    ) -> (config: Config)
        ensures
            config@ == (ConfigView {
                host: host@,
                port,
                user: user@,
                password: password@,
                dbname: dbname@,
                sslmode: sslmode@,
                snapshots_table: snapshots_table@,
                setup,
            }),
    {
        Config { host, port, user, password, dbname, sslmode, snapshots_table, setup }
    }

    /// Change the `host`.
    pub fn with_host(self, host: &str) -> (config: Config)
        ensures
            config@ == (ConfigView { host: host@, ..self@ }),
    {
        let host = host.to_owned();
        Config { host, ..self }
    }

    /// Change the `port`.
    pub fn with_port(self, port: u16) -> (config: Config)
        ensures
            config@ == (ConfigView { port, ..self@ }),
    {
        Config { port, ..self }
    }

    /// Change the `user`.
    pub fn with_user(self, user: &str) -> (config: Config)
        ensures
            config@ == (ConfigView { user: user@, ..self@ }),
    {
        let user = user.to_owned();
        Config { user, ..self }
    }

    /// Change the `password`.
    pub fn with_password(self, password: &str) -> (config: Config)
        ensures
            config@ == (ConfigView { password: password@, ..self@ }),
    {
        let password = password.to_owned();
        Config { password, ..self }
    }

    /// Change the `dbname`.
    pub fn with_dbname(self, dbname: &str) -> (config: Config)
        ensures
            config@ == (ConfigView { dbname: dbname@, ..self@ }),
    {
        let dbname = dbname.to_owned();
        Config { dbname, ..self }
    }

    /// Change the `sslmode`.
    pub fn with_sslmode(self, sslmode: &str) -> (config: Config)
        ensures
            config@ == (ConfigView { sslmode: sslmode@, ..self@ }),
    {
        let sslmode = sslmode.to_owned();
        Config { sslmode, ..self }
    }

    /// Change the `snapshots_table`.
    pub fn with_snapshots_table(self, snapshots_table: String) -> (config: Config)
        ensures
            config@ == (ConfigView { snapshots_table: snapshots_table@, ..self@ }),
    {
        Config { snapshots_table, ..self }
    }

    /// Change the `setup` flag.
    pub fn with_setup(self, setup: bool) -> (config: Config)
        ensures
            config@ == (ConfigView { setup, ..self@ }),
    {
        Config { setup, ..self }
    }

    /// Host name of the database server.
    pub fn host(&self) -> (host: &str)
        ensures
            host@ == self@.host,
    {
        self.host.as_str()
    }

    /// Port of the database server.
    pub fn port(&self) -> (port: u16)
        ensures
            port == self@.port,
    {
        self.port
    }

    /// Database user.
    pub fn user(&self) -> (user: &str)
        ensures
            user@ == self@.user,
    {
        self.user.as_str()
    }

    /// Password of the database user.
    pub fn password(&self) -> (password: &str)
        ensures
            password@ == self@.password,
    {
        self.password.as_str()
    }

    /// Name of the database.
    pub fn dbname(&self) -> (dbname: &str)
        ensures
            dbname@ == self@.dbname,
    {
        self.dbname.as_str()
    }

    /// TLS mode of the connection.
    pub fn sslmode(&self) -> (sslmode: &str)
        ensures
            sslmode@ == self@.sslmode,
    {
        self.sslmode.as_str()
    }

    /// Name of the table that holds the snapshots.
    pub fn snapshots_table(&self) -> (snapshots_table: &str)
        ensures
            snapshots_table@ == self@.snapshots_table,
    {
        self.snapshots_table.as_str()
    }

    /// Whether the table is to be created when the store is made.
    pub fn setup(&self) -> (setup: bool)
        ensures
            setup == self@.setup,
    {
        self.setup
    }

    /// The connection string for these settings.
    pub fn cnn_config(&self) -> (cnn: String)
        ensures
            cnn@ == cnn_text(self@),
    {
        let mut cnn = String::from_str("host=");
        cnn.append(self.host.as_str());
        cnn.append(" port=");
        cnn.append(port_text(self.port).as_str());
        cnn.append(" user=");
        cnn.append(self.user.as_str());
        cnn.append(" password=");
        cnn.append(self.password.as_str());
        cnn.append(" dbname=");
        cnn.append(self.dbname.as_str());
        cnn.append(" sslmode=");
        cnn.append(self.sslmode.as_str());
        cnn
    }
}

impl Default for Config {
    /// Default values suitable for local testing only.
    fn default() -> (config: Config)
        ensures
            config@ == (ConfigView {
                host: "localhost"@,
                port: 5432,
                user: "postgres"@,
                password: ""@,
                dbname: "postgres"@,
                sslmode: "prefer"@,
                snapshots_table: "snapshots"@,
                setup: false,
            }),
    {
        Config {
            host: "localhost".to_owned(),
            port: 5432,
            user: "postgres".to_owned(),
            password: "".to_owned(),
            dbname: "postgres".to_owned(),
            sslmode: "prefer".to_owned(),
            snapshots_table: snapshots_table_default(),
            setup: false,
        }
    }
}

impl Clone for Config {
    fn clone(&self) -> (config: Config)
        ensures
            config@ == self@,
    {
        Config {
            host: self.host.clone(),
            port: self.port,
            user: self.user.clone(),
            password: self.password.clone(),
            dbname: self.dbname.clone(),
            sslmode: self.sslmode.clone(),
            snapshots_table: self.snapshots_table.clone(),
            setup: self.setup,
        }
    }
}

/// The value of the `seq_no` column for a sequence number. The column holds
/// signed 64-bit integers: a sequence number beyond their range is stored
/// as the negative number with the same 64 bits.
pub open spec fn seq_no_column(seq_no: u64) -> i64 {
    if seq_no <= i64::MAX {
        seq_no as i64
    } else {
        (seq_no - 0x1_0000_0000_0000_0000) as i64
    }
}

/// The number that a value of the `seq_no` column stands for: the unsigned
/// number with the same 64 bits.
pub open spec fn column_seq_no(column: i64) -> u64 {
    if column >= 0 {
        column as u64
    } else {
        (column + 0x1_0000_0000_0000_0000) as u64
    }
}

/// The value to store in the `seq_no` column for `seq_no`.
pub fn seq_no_to_column(seq_no: SeqNo) -> (column: i64)
    ensures
        column == seq_no_column(seq_no@),
        column != 0,
{
    let value = seq_no.as_u64();
    let column = #[verifier::truncate] (value as i64);
    assert(column == seq_no_column(value)) by (bit_vector)
        requires
            column == #[verifier::truncate] (value as i64),
    ;
    column
}

/// The sequence number that a value of the `seq_no` column stands for.
/// Zero stands for none and is refused.
pub fn seq_no_from_column(column: i64) -> (seq_no: Result<SeqNo, ZeroSeqNoError>)
    ensures
        column == 0 <==> seq_no is Err,
        seq_no matches Ok(seq_no) ==> seq_no@ == column_seq_no(column),
{
    let value = #[verifier::truncate] (column as u64);
    assert(value == column_seq_no(column)) by (bit_vector)
        requires
            value == #[verifier::truncate] (column as u64),
    ;
    SeqNo::try_from(value)
}

/// A sequence number that was stored in the `seq_no` column is read back
/// from it as it was.
pub proof fn lemma_seq_no_column_round_trip(seq_no: u64)
    ensures
        column_seq_no(seq_no_column(seq_no)) == seq_no,
{
}

/// The table that a configuration names unless told otherwise: "snapshots".
pub fn snapshots_table_default() -> (snapshots_table: String)
    ensures
        snapshots_table@ == "snapshots"@,
{
    "snapshots".to_owned()
}

} // verus!

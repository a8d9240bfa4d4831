//! State of the register monitor: serial settings, the register window
//! and its aliases, the last readings, and the connection bookkeeping.
//! The serial line and the window are driven from outside; each of their
//! results comes in here as an event and is folded into the state.

use vstd::prelude::*;
use crate::text::{decimal_digits, default_register_name, default_register_name_text, DisplayStyle};

verus! {

/// What the monitor state stands for, with each string taken as its
/// characters.
#[verifier::ext_equal]
pub struct AppModel {
    pub port: Seq<char>,
    pub baud_rate: u32,
    pub slave_id: u8,
    pub available_ports: Seq<Seq<char>>,
    pub start_address: u16,
    pub register_count: u16,
    pub register_aliases: Seq<Seq<char>>,
    pub connected: bool,
    pub registers: Seq<u16>,
    pub error_message: Seq<char>,
    pub display_style: DisplayStyle,
    pub rows: usize,
    pub columns: usize,
    pub connection_status: Seq<char>,
    pub packet_loss: u32,
    pub error_count: u32,
    pub last_error: Seq<char>,
}

/// The register monitor's state.
pub struct ModbusApp {
    pub port: String,
    pub baud_rate: u32,
    pub slave_id: u8,
    pub available_ports: Vec<String>,
    pub start_address: u16,
    pub register_count: u16,
    pub register_aliases: Vec<String>,
    pub connected: bool,
    pub registers: Vec<u16>,
    pub error_message: String,
    pub display_style: DisplayStyle,
    pub rows: usize,
    pub columns: usize,
    pub connection_status: String,
    pub packet_loss: u32,
    pub error_count: u32,
    pub last_error: String,
}

impl View for ModbusApp {
    type V = AppModel;

    open spec fn view(&self) -> AppModel {
        AppModel {
            port: self.port@,
            baud_rate: self.baud_rate,
            slave_id: self.slave_id,
            available_ports: self.available_ports.deep_view(),
            start_address: self.start_address,
            register_count: self.register_count,
            register_aliases: self.register_aliases.deep_view(),
            connected: self.connected,
            registers: self.registers@,
            error_message: self.error_message@,
            display_style: self.display_style,
            rows: self.rows,
            columns: self.columns,
            connection_status: self.connection_status@,
            packet_loss: self.packet_loss,
            error_count: self.error_count,
            last_error: self.last_error@,
        }
    }
}

/// The state with every field empty, zero or false.
pub open spec fn empty_model() -> AppModel {
    AppModel {
        port: Seq::empty(),
        baud_rate: 0,
        slave_id: 0,
        available_ports: Seq::empty(),
        start_address: 0,
        register_count: 0,
        register_aliases: Seq::empty(),
        connected: false,
        registers: Seq::empty(),
        error_message: Seq::empty(),
        display_style: DisplayStyle::Decimal,
        rows: 0,
        columns: 0,
        connection_status: Seq::empty(),
        packet_loss: 0,
        error_count: 0,
        last_error: Seq::empty(),
    }
}

/// Status text while no port is open.
pub open spec fn status_disconnected() -> Seq<char> {
    "未连接"@
}

/// Status text once the port is open.
pub open spec fn status_connected() -> Seq<char> {
    "已连接"@
}

/// Status text after a port failed to open.
pub open spec fn status_connect_failed() -> Seq<char> {
    "连接失败"@
}

/// The state a fresh monitor starts from, before any saved settings are
/// loaded: port COM4 at 9600 baud, slave 1, registers 0 to 99, a five by
/// five layout, not connected.
pub open spec fn initial_model(available_ports: Seq<Seq<char>>) -> AppModel {
    AppModel {
        port: "COM4"@,
        baud_rate: 9600,
        slave_id: 1,
        start_address: 0,
        register_count: 100,
        rows: 5,
        columns: 5,
        connection_status: status_disconnected(),
        available_ports: available_ports,
        ..empty_model()
    }
}

impl Default for ModbusApp {
    fn default() -> (app: ModbusApp)
        ensures
            app@ == empty_model(),
    {
        let app = ModbusApp {
            port: String::new(),
            baud_rate: 0,
            slave_id: 0,
            available_ports: Vec::new(),
            start_address: 0,
            register_count: 0,
            register_aliases: Vec::new(),
            connected: false,
            registers: Vec::new(),
            error_message: String::new(),
            display_style: DisplayStyle::Decimal,
            rows: 0,
            columns: 0,
            connection_status: String::new(),
            packet_loss: 0,
            error_count: 0,
            last_error: String::new(),
        };
        assert(app@ =~= empty_model());
        app
    }
}

/// What `serde_json::from_str` makes of `text` when asked for a register
/// configuration: the aliases, the first address and the register count,
/// or nothing when the text is not such a configuration.
pub uninterp spec fn register_config_from_json(text: Seq<char>) -> Option<(Seq<Seq<char>>, u16, u16)>;

/// What `serde_json::to_string_pretty` writes for a register configuration,
/// or nothing when it reports an error.
pub uninterp spec fn register_config_to_json(aliases: Seq<Seq<char>>, start_address: u16, count: u16) -> Option<Seq<char>>;

/// Reads a register configuration, a JSON array of the aliases, the first
/// address and the register count, with `serde_json::from_str`. Its result
/// is a function of the text alone; which texts it accepts is left to the
/// name `register_config_from_json`.
#[verifier::external_body]
fn parse_register_config(text: &str) -> (config: Option<(Vec<String>, u16, u16)>)
    ensures
        match config {
            Some(c) => register_config_from_json(text@) == Some((c.0.deep_view(), c.1, c.2)),
            None => register_config_from_json(text@) is None,
        },
{
    serde_json::from_str::<(Vec<String>, u16, u16)>(text).ok()
}

/// Writes a register configuration with `serde_json::to_string_pretty`. Its
/// result is a function of the configuration alone; the text itself is left
/// to the name `register_config_to_json`. Serialization does not fail here:
/// `serde_json` reports an error only when a `Serialize` impl does or a map
/// has non-string keys, and strings, vectors and integers do neither.
#[verifier::external_body]
fn write_register_config(aliases: &Vec<String>, start_address: u16, count: u16) -> (text: Option<String>)
    ensures
        text is Some,
        match text {
            Some(t) => register_config_to_json(aliases.deep_view(), start_address, count) == Some(t@),
            None => register_config_to_json(aliases.deep_view(), start_address, count) is None,
        },
{
    serde_json::to_string_pretty(&(aliases, start_address, count)).ok()
}

/// The name register `i` is shown under.
pub open spec fn register_label_text(m: AppModel, i: int) -> Seq<char> {
    if 0 <= i < m.register_aliases.len() && m.register_aliases[i].len() > 0 {
        m.register_aliases[i]
    } else {
        default_register_name_text((m.start_address + (i as u16)) as u16)
    }
}

/// A register with a non-empty alias is shown under that alias; any other
/// is shown as "寄存器 " and its address in decimal.
pub proof fn lemma_register_label_text(m: AppModel, i: int)
    requires
        0 <= i,
    ensures
        i < m.register_aliases.len() && m.register_aliases[i].len() > 0 ==> register_label_text(m, i) == m.register_aliases[i],
        !(i < m.register_aliases.len() && m.register_aliases[i].len() > 0) ==> register_label_text(m, i)
            == "寄存器 "@ + decimal_digits((m.start_address + (i as u16)) as u16 as nat),
{
}

/// After a successful read of `n` registers the monitor holds exactly the
/// values read, an alias for every one of them and every alias it had.
pub proof fn lemma_read_success_model(m: AppModel, values: Vec<u16>)
    requires
        alias_fill_fits(m.register_aliases.len(), m.start_address, values@.len()),
    ensures
        ({
            let after = model_after_read(m, ReadOutcome::Registers(values));
            &&& after.registers == values@
            &&& after.error_message.len() == 0
            &&& after.error_count == m.error_count
            &&& after.register_aliases.len() == (if m.register_aliases.len() >= values@.len() {
                m.register_aliases.len()
            } else {
                values@.len()
            })
            &&& forall|k: int| 0 <= k < m.register_aliases.len() ==> #[trigger] after.register_aliases[k] == m.register_aliases[k]
            &&& forall|k: int| m.register_aliases.len() <= k < values@.len() ==>
                #[trigger] after.register_aliases[k] == "寄存器 "@ + decimal_digits((m.start_address + k) as nat)
        }),
{
    let n = values@.len();
    lemma_read_names_every_register(m.register_aliases, m.start_address, n);
    let after = model_after_read(m, ReadOutcome::Registers(values));
    assert forall|k: int| m.register_aliases.len() <= k < n implies
        #[trigger] after.register_aliases[k] == "寄存器 "@ + decimal_digits((m.start_address + k) as nat) by {
        assert((m.start_address + k) as u16 as nat == m.start_address + k);
    }
}

/// A column setting brought into the range one to ten.
pub open spec fn clamp_columns(columns: usize) -> usize {
    if columns < 1 {
        1
    } else if columns > 10 {
        10
    } else {
        columns
    }
}

/// Whether the grid row closes after cell `index` of a grid with `columns`
/// columns.
pub fn row_ends_after(index: usize, columns: usize) -> (ends: bool)
    requires
        columns > 0,
        index < usize::MAX,
    ensures
        ends == ((index + 1) % (columns as int) == 0),
{
    (index + 1) % columns == 0
}

/// Whether a grid of `cells` cells in `columns` columns ends in a partly
/// filled row that still has to be closed.
pub fn last_row_open(cells: usize, columns: usize) -> (open: bool)
    requires
        columns > 0,
    ensures
        open == (cells % columns != 0),
{
    cells % columns != 0
}

/// What came of an attempt to read the register window.
pub enum ReadOutcome {
    /// The slave answered with these register values.
    Registers(Vec<u16>),
    /// The transfer failed; the failure as the link reported it.
    Failed(String),
    /// No port was open to read from.
    NotConnected,
}

/// The aliases after a read of `n` registers: the existing ones are kept,
/// and each register from the first without an alias up to the last read
/// is given its default name.
pub open spec fn aliases_after_read(aliases: Seq<Seq<char>>, start_address: u16, n: nat) -> Seq<Seq<char>> {
    if aliases.len() >= n {
        aliases
    } else {
        aliases + Seq::new(
            (n - aliases.len()) as nat,
            |j: int| default_register_name_text((start_address + aliases.len() + j) as u16),
        )
    }
}

/// After a read of `n` registers every register read has an alias: the
/// aliases it had keep their text, and each new one is the default name of
/// its register's address.
pub proof fn lemma_read_names_every_register(aliases: Seq<Seq<char>>, start_address: u16, n: nat)
    ensures
        ({
            let after = aliases_after_read(aliases, start_address, n);
            &&& after.len() == (if aliases.len() >= n { aliases.len() } else { n })
            &&& forall|k: int| 0 <= k < aliases.len() ==> #[trigger] after[k] == aliases[k]
            &&& forall|k: int| aliases.len() <= k < n ==>
                #[trigger] after[k] == default_register_name_text((start_address + k) as u16)
        }),
{
}

/// Whether filling in default names for `n` registers stays within the
/// 16-bit address space.
pub open spec fn alias_fill_fits(aliases_len: nat, start_address: u16, n: nat) -> bool {
    aliases_len >= n || (n <= 0x10000 && start_address + n <= 0x10000)
}

/// The state after a read that came to `outcome`.
pub open spec fn model_after_read(m: AppModel, outcome: ReadOutcome) -> AppModel {
    match outcome {
        ReadOutcome::Registers(values) => AppModel {
            registers: values@,
            error_message: Seq::empty(),
            register_aliases: aliases_after_read(m.register_aliases, m.start_address, values@.len()),
            ..m
        },
        ReadOutcome::Failed(description) => AppModel {
            error_message: "Failed to read registers: "@ + description@,
            last_error: "Failed to read registers: "@ + description@,
            error_count: (m.error_count + 1) as u32,
            packet_loss: (m.packet_loss + 1) as u32,
            ..m
        },
        ReadOutcome::NotConnected => AppModel {
            error_message: "Not connected"@,
            last_error: "Not connected"@,
            error_count: (m.error_count + 1) as u32,
            ..m
        },
    }
}

impl ModbusApp {
    /// A fresh monitor offering the given serial ports.
    pub fn new(available_ports: Vec<String>) -> (app: ModbusApp)
        ensures
            app@ == initial_model(available_ports.deep_view()),
    {
        let mut app = ModbusApp::default();
        app.port = String::from_str("COM4");
        app.baud_rate = 9600;
        app.slave_id = 1;
        app.start_address = 0;
        app.register_count = 100;
        app.rows = 5;
        app.columns = 5;
        app.connection_status = String::from_str("未连接");
        app.available_ports = available_ports;
        assert(app@ =~= initial_model(available_ports.deep_view()));
        app
    }
}

/// Gives each register from the first without an alias up to register
/// `n - 1` its default name.
fn fill_default_aliases(aliases: &mut Vec<String>, start_address: u16, n: usize)
    requires
        alias_fill_fits(old(aliases)@.len(), start_address, n as nat),
    ensures
        final(aliases).deep_view() == aliases_after_read(old(aliases).deep_view(), start_address, n as nat),
{
    let ghost orig = aliases.deep_view();
    assert(aliases_after_read(orig, start_address, aliases.len() as nat) =~= orig);
    while aliases.len() < n
        invariant
            alias_fill_fits(orig.len(), start_address, n as nat),
            aliases.len() >= orig.len(),
            orig.len() < n ==> aliases.len() <= n,
            orig.len() >= n ==> aliases.len() == orig.len(),
            aliases.deep_view() =~= aliases_after_read(orig, start_address, aliases.len() as nat),
        decreases n - aliases.len(),
    {
        let next = aliases.len();
        let address: u16 = start_address + next as u16;
        let name = default_register_name(address);
        let ghost before = aliases.deep_view();
        aliases.push(name);
        proof {
            let o = orig.len();
            let prior = aliases_after_read(orig, start_address, next as nat);
            let expected = aliases_after_read(orig, start_address, (next + 1) as nat);
            assert(o < n);
            assert(expected.len() == next + 1);
            assert forall|k: int| 0 <= k < next + 1 implies #[trigger] aliases.deep_view()[k] == expected[k] by {
                if k < next {
                    assert(before[k] == prior[k]);
                    if k >= o {
                        assert(prior[k] == expected[k]);
                    }
                } else {
                    assert(expected[k] == default_register_name_text(
                        (start_address + o + (k - o)) as u16));
                }
            }
            assert(aliases.deep_view() =~= expected);
        }
    }
    proof {
        if orig.len() >= n {
            assert(aliases.deep_view() =~= orig);
        }
    }
}

impl ModbusApp {
    /// Takes in the result of opening the port: `Ok` when it opened, or the
    /// failure as the port reported it.
    pub fn connect(&mut self, outcome: Result<(), String>)
        requires
            outcome is Err ==> old(self).error_count < u32::MAX,
        ensures
            final(self).connected == (outcome is Ok),
            match outcome {
                Ok(()) => final(self)@ == (AppModel {
                    connected: true,
                    error_message: Seq::empty(),
                    connection_status: status_connected(),
                    ..old(self)@
                }),
                Err(description) => final(self)@ == (AppModel {
                    error_message: "Failed to connect: "@ + description@,
                    connected: false,
                    connection_status: status_connect_failed(),
                    last_error: "Failed to connect: "@ + description@,
                    error_count: (old(self)@.error_count + 1) as u32,
                    ..old(self)@
                }),
            },
    {
        let ghost before = self@;
        match outcome {
            Ok(()) => {
                self.connected = true;
                self.error_message = String::new();
                self.connection_status = String::from_str("已连接");
            },
            Err(description) => {
                let message = String::from_str("Failed to connect: ").concat(description.as_str());
                self.error_message = message.clone();
                self.connected = false;
                self.connection_status = String::from_str("连接失败");
                self.last_error = message;
                self.error_count = self.error_count + 1;
            },
        }
        assert(self@.available_ports =~= before.available_ports);
        assert(self@.register_aliases =~= before.register_aliases);
    }

    /// Closes the session: no longer connected.
    pub fn disconnect(&mut self)
        ensures
            final(self)@ == (AppModel {
                connected: false,
                connection_status: status_disconnected(),
                ..old(self)@
            }),
    {
        let ghost before = self@;
        self.connected = false;
        self.connection_status = String::from_str("未连接");
        assert(self@.available_ports =~= before.available_ports);
        assert(self@.register_aliases =~= before.register_aliases);
    }

    /// Takes in a register configuration that was read: its aliases, first
    /// address and register count replace the current ones. Nothing changes
    /// when there is none.
    pub fn apply_register_config(&mut self, config: Option<(Vec<String>, u16, u16)>)
        ensures
            match config {
                Some(c) => final(self)@ == (AppModel {
                    register_aliases: c.0.deep_view(),
                    start_address: c.1,
                    register_count: c.2,
                    ..old(self)@
                }),
                None => final(self)@ == old(self)@,
            },
    {
        let ghost before = self@;
        match config {
            Some((aliases, start_address, count)) => {
                self.register_aliases = aliases;
                self.start_address = start_address;
                self.register_count = count;
                assert(self@.available_ports =~= before.available_ports);
            },
            None => {},
        }
    }

    /// Imports a register configuration from its JSON text.
    pub fn import_register_config(&mut self, content: &str)
        ensures
            match register_config_from_json(content@) {
                Some(c) => final(self)@ == (AppModel {
                    register_aliases: c.0,
                    start_address: c.1,
                    register_count: c.2,
                    ..old(self)@
                }),
                None => final(self)@ == old(self)@,
            },
    {
        let config = parse_register_config(content);
        self.apply_register_config(config);
    }

    /// The JSON text of the register configuration: the aliases, the first
    /// address and the register count.
    pub fn export_register_config(&self) -> (text: Option<String>)
        ensures
            text is Some,
            match text {
                Some(t) => register_config_to_json(self@.register_aliases, self.start_address, self.register_count)
                    == Some(t@),
                None => register_config_to_json(self@.register_aliases, self.start_address, self.register_count)
                    is None,
            },
    {
        write_register_config(&self.register_aliases, self.start_address, self.register_count)
    }

    /// The name register `i` of the window is shown under: its alias when it
    /// has a non-empty one, else its default name.
    pub fn register_label(&self, i: usize) -> (label: String)
        requires
            (i < self.register_aliases@.len() && self.register_aliases@[i as int]@.len() > 0)
                || self.start_address + (i as u16) <= 0xFFFF,
        ensures
            label@ == register_label_text(self@, i as int),
            i < self.register_aliases@.len() && self.register_aliases@[i as int]@.len() > 0
                ==> label@ == self.register_aliases@[i as int]@,
            !(i < self.register_aliases@.len() && self.register_aliases@[i as int]@.len() > 0)
                ==> label@ == "寄存器 "@ + decimal_digits((self.start_address + (i as u16)) as nat),
    {
        if i < self.register_aliases.len() && !self.register_aliases[i].as_str().is_empty() {
            self.register_aliases[i].clone()
        } else {
            default_register_name(self.start_address + i as u16)
        }
    }

    /// Number of columns the register grid is laid out in: the configured
    /// number, at least one and at most ten.
    pub fn grid_columns(&self) -> (n: usize)
        ensures
            n == clamp_columns(self.columns),
    {
        if self.columns < 1 {
            1
        } else if self.columns > 10 {
            10
        } else {
            self.columns
        }
    }

    /// Takes in the result of reading the register window.
    pub fn read_registers(&mut self, outcome: ReadOutcome)
        requires
            outcome is Registers ==> alias_fill_fits(
                old(self).register_aliases@.len(),
                old(self).start_address,
                outcome->Registers_0@.len(),
            ),
            !(outcome is Registers) ==> old(self).error_count < u32::MAX,
            outcome is Failed ==> old(self).packet_loss < u32::MAX,
        ensures
            final(self)@ == model_after_read(old(self)@, outcome),
            outcome matches ReadOutcome::Registers(values) ==> {
                &&& final(self).registers@ == values@
                &&& final(self).error_message@.len() == 0
                &&& final(self).error_count == old(self).error_count
                &&& final(self).register_aliases@.len() == (if old(self).register_aliases@.len() >= values@.len() {
                    old(self).register_aliases@.len()
                } else {
                    values@.len()
                })
                &&& forall|k: int| 0 <= k < old(self).register_aliases@.len() ==>
                    #[trigger] final(self).register_aliases@[k]@ == old(self).register_aliases@[k]@
                &&& forall|k: int| old(self).register_aliases@.len() <= k < values@.len() ==>
                    #[trigger] final(self).register_aliases@[k]@
                        == "寄存器 "@ + decimal_digits((old(self).start_address + k) as nat)
            },
            !(outcome is Registers) ==> final(self).error_count == old(self).error_count + 1,
            outcome is Failed ==> final(self).packet_loss == old(self).packet_loss + 1,
            outcome is NotConnected ==> final(self).packet_loss == old(self).packet_loss,
    {
        let ghost before = self@;
        let ghost event = outcome;
        match outcome {
            ReadOutcome::Registers(values) => {
                let count = values.len();
                self.registers = values;
                self.error_message = String::new();
                fill_default_aliases(&mut self.register_aliases, self.start_address, count);
                assert(self@.available_ports =~= before.available_ports);
                assert(self@ =~= model_after_read(before, event));
                proof {
                    lemma_read_names_every_register(before.register_aliases, before.start_address, count as nat);
                    assert forall|k: int| before.register_aliases.len() <= k < count implies
                        #[trigger] self.register_aliases@[k]@
                            == "寄存器 "@ + decimal_digits((before.start_address + k) as nat) by {
                        assert(self.register_aliases@[k]@ == self@.register_aliases[k]);
                        assert((before.start_address + k) as u16 as nat == before.start_address + k);
                    }
                    assert forall|k: int| 0 <= k < before.register_aliases.len() implies
                        #[trigger] self.register_aliases@[k]@ == old(self).register_aliases@[k]@ by {
                        assert(self.register_aliases@[k]@ == self@.register_aliases[k]);
                        assert(old(self).register_aliases@[k]@ == before.register_aliases[k]);
                    }
                }
            },
            ReadOutcome::Failed(description) => {
                let message = String::from_str("Failed to read registers: ").concat(description.as_str());
                self.error_message = message.clone();
                self.last_error = message;
                self.error_count = self.error_count + 1;
                self.packet_loss = self.packet_loss + 1;
                assert(self@.available_ports =~= before.available_ports);
                assert(self@.register_aliases =~= before.register_aliases);
                assert(self@ =~= model_after_read(before, event));
            },
            ReadOutcome::NotConnected => {
                self.error_message = String::from_str("Not connected");
                self.last_error = String::from_str("Not connected");
                self.error_count = self.error_count + 1;
                assert(self@.available_ports =~= before.available_ports);
                assert(self@.register_aliases =~= before.register_aliases);
                assert(self@ =~= model_after_read(before, event));
            },
        }
    }
}

} // verus!

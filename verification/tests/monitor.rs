use modbus_rtu::monitor::{last_row_open, row_ends_after, ModbusApp, ReadOutcome};
use modbus_rtu::text::DisplayStyle;

fn ports() -> Vec<String> {
    vec!["COM1".to_string(), "/dev/ttyUSB0".to_string()]
}

#[test]
fn fresh_monitor_settings() {
    let app = ModbusApp::new(ports());
    assert_eq!(app.port, "COM4");
    assert_eq!(app.baud_rate, 9600);
    assert_eq!(app.slave_id, 1);
    assert_eq!(app.start_address, 0);
    assert_eq!(app.register_count, 100);
    assert_eq!(app.rows, 5);
    assert_eq!(app.columns, 5);
    assert_eq!(app.connection_status, "未连接");
    assert_eq!(app.available_ports, ports());
    assert!(!app.connected);
    assert!(app.registers.is_empty());
    assert!(app.register_aliases.is_empty());
    assert_eq!(app.display_style, DisplayStyle::Decimal);
    assert_eq!(app.error_count, 0);
    assert_eq!(app.packet_loss, 0);
}

#[test]
fn default_monitor_is_empty() {
    let app = ModbusApp::default();
    assert_eq!(app.port, "");
    assert_eq!(app.baud_rate, 0);
    assert_eq!(app.columns, 0);
    assert_eq!(app.connection_status, "");
}

#[test]
fn connect_success_and_disconnect() {
    let mut app = ModbusApp::new(ports());
    app.error_message = "old".to_string();
    app.connect(Ok(()));
    assert!(app.connected);
    assert_eq!(app.error_message, "");
    assert_eq!(app.connection_status, "已连接");
    assert_eq!(app.error_count, 0);
    app.disconnect();
    assert!(!app.connected);
    assert_eq!(app.connection_status, "未连接");
}

#[test]
fn connect_failure_is_recorded() {
    let mut app = ModbusApp::new(ports());
    app.connect(Err("no such port".to_string()));
    assert!(!app.connected);
    assert_eq!(app.error_message, "Failed to connect: no such port");
    assert_eq!(app.last_error, "Failed to connect: no such port");
    assert_eq!(app.connection_status, "连接失败");
    assert_eq!(app.error_count, 1);
    assert_eq!(app.packet_loss, 0);
}

#[test]
fn read_success_stores_values_and_names_registers() {
    let mut app = ModbusApp::new(ports());
    app.start_address = 10;
    app.register_aliases = vec!["温度".to_string()];
    app.error_message = "stale".to_string();
    app.read_registers(ReadOutcome::Registers(vec![7, 8, 9]));
    assert_eq!(app.registers, vec![7, 8, 9]);
    assert_eq!(app.error_message, "");
    assert_eq!(
        app.register_aliases,
        vec!["温度".to_string(), "寄存器 11".to_string(), "寄存器 12".to_string()]
    );
    assert_eq!(app.error_count, 0);
}

#[test]
fn read_keeps_surplus_aliases() {
    let mut app = ModbusApp::new(ports());
    app.register_aliases = vec!["a".to_string(), "b".to_string(), "c".to_string()];
    app.read_registers(ReadOutcome::Registers(vec![1]));
    assert_eq!(app.register_aliases.len(), 3);
    assert_eq!(app.registers, vec![1]);
}

#[test]
fn read_failure_counts_error_and_loss() {
    let mut app = ModbusApp::new(ports());
    app.registers = vec![5];
    app.read_registers(ReadOutcome::Failed("timed out".to_string()));
    assert_eq!(app.error_message, "Failed to read registers: timed out");
    assert_eq!(app.last_error, "Failed to read registers: timed out");
    assert_eq!(app.error_count, 1);
    assert_eq!(app.packet_loss, 1);
    assert_eq!(app.registers, vec![5]);
    app.read_registers(ReadOutcome::Failed("again".to_string()));
    assert_eq!(app.error_count, 2);
    assert_eq!(app.packet_loss, 2);
}

#[test]
fn read_without_connection() {
    let mut app = ModbusApp::new(ports());
    app.read_registers(ReadOutcome::NotConnected);
    assert_eq!(app.error_message, "Not connected");
    assert_eq!(app.last_error, "Not connected");
    assert_eq!(app.error_count, 1);
    assert_eq!(app.packet_loss, 0);
}

#[test]
fn import_register_config_from_json() {
    let mut app = ModbusApp::new(ports());
    app.import_register_config("[[\"a\", \"b\"], 40, 2]");
    assert_eq!(app.register_aliases, vec!["a".to_string(), "b".to_string()]);
    assert_eq!(app.start_address, 40);
    assert_eq!(app.register_count, 2);
}

#[test]
fn import_ignores_bad_config() {
    let mut app = ModbusApp::new(ports());
    app.import_register_config("not json");
    assert!(app.register_aliases.is_empty());
    assert_eq!(app.start_address, 0);
    assert_eq!(app.register_count, 100);
    app.import_register_config("[[\"a\"], 70000, 1]");
    assert_eq!(app.start_address, 0);
    app.apply_register_config(None);
    assert_eq!(app.register_count, 100);
}

#[test]
fn export_then_import_restores_config() {
    let mut app = ModbusApp::new(ports());
    app.register_aliases = vec!["x".to_string(), "寄存器 1".to_string()];
    app.start_address = 300;
    app.register_count = 2;
    let text = app.export_register_config().unwrap();
    let mut other = ModbusApp::new(vec![]);
    other.import_register_config(&text);
    assert_eq!(other.register_aliases, app.register_aliases);
    assert_eq!(other.start_address, 300);
    assert_eq!(other.register_count, 2);
}

#[test]
fn labels_use_alias_or_default_name() {
    let mut app = ModbusApp::new(ports());
    app.start_address = 100;
    app.register_aliases = vec!["pump".to_string(), "".to_string()];
    assert_eq!(app.register_label(0), "pump");
    assert_eq!(app.register_label(1), "寄存器 101");
    assert_eq!(app.register_label(5), "寄存器 105");
}

#[test]
fn grid_layout() {
    let mut app = ModbusApp::new(ports());
    assert_eq!(app.grid_columns(), 5);
    app.columns = 0;
    assert_eq!(app.grid_columns(), 1);
    app.columns = 25;
    assert_eq!(app.grid_columns(), 10);
    assert!(!row_ends_after(0, 5));
    assert!(row_ends_after(4, 5));
    assert!(row_ends_after(9, 5));
    assert!(last_row_open(7, 5));
    assert!(!last_row_open(10, 5));
}

#[test]
fn connected_flag_follows_the_open_result() {
    let mut app = ModbusApp::new(ports());
    app.connect(Err("busy".to_string()));
    assert!(!app.connected);
    app.connect(Ok(()));
    assert!(app.connected);
    app.disconnect();
    app.connect(Err("gone".to_string()));
    assert!(!app.connected);
    assert_eq!(app.error_count, 2);
}

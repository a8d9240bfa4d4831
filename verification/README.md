# modbus_rtu

A Modbus RTU master for reading holding and input registers over a serial
line, with a register-monitor front end.

- `src/crc.rs`: CRC-16/MODBUS and the proof that a frame followed by its
  CRC checks to zero.
- `src/frame.rs`: read-request frames, reply length, reply validation and
  register decoding, with the proofs that requests are well formed and that
  decoding a slave's reply gives back its values.
- `src/text.rs`: decimal, hexadecimal and binary display of register values
  and default register names, with read-back proofs.
- `src/monitor.rs`: the monitor state and how each connection, read and
  configuration event changes it.
- `app/`: the serial port, the command line, the window and the config file.

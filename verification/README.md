# rdp

The verified core of an RDP client library built around FreeRDP, written in
Verus.

- `src/addins/smartcard/`: the RDPDR smartcard device. `handlers` dispatches a
  decoded IRP to a `SmartcardIntegration` and states, for every answer the
  integration may give, what the call answers and what it does to the context
  registry and the card cache; `device` holds the outstanding-IRP tracker, the
  wire encodings (multi-strings, handles, I/O requests, reader states) and the
  response framing; `irp` runs one IRP through these steps.
- `src/integrations/smartcard/`: the integration trait, its value types, the
  handle counters, ATR matching, the reader filter, and an in-memory
  integration with predefined cards.
- `src/channels.rs`, `src/callbacks.rs`, `src/windows_types.rs`,
  `src/wlog.rs`, `src/utils/`: channel bookkeeping, callback traits, Win32
  window commands, log levels and pixel formats.
- `app/`: what Verus does not see: WinSock start-up, the device thread and its
  queue, and the Win32 window style flags.

`tests/` exercises the library on concrete values.

# tm20

ESC/POS for the Epson TM-T20III receipt printer, and a small attention
router whose paper output is that encoder. The library is written in Verus:
its functions carry `requires`/`ensures` contracts and are proved against
them. Where a result comes from outside the library (a provider's reply, a
user's connector, the time, an allocation), the contract states what holds
whatever comes back rather than the value itself; the connector registry
keeps, by design, the descriptor each connector reported when it was
registered, and reports that one.

## Layout

- `src/` — the verified library.
  - Printer protocol: `command`, `document`, `encode`, `cp437`, `barcode`,
    `symbol` (QR, PDF417, GS1, MaxiCode, Data Matrix), `raster`, `graphics`,
    `reply` (framing of printer replies), `status`, `identify`, `memory`,
    `selftest`, `host` (the pages the command line prints), `cli` (argument
    parsing and the plan of what to send), `usb` (interface choice and reads),
    `transport` (the byte pipe a device implements), `typeface` (canvas
    width, weight and alignment).
  - Attention router: `connector` (typed and erased provider plugins, the
    registry), `policy` (routing rules and their checks), `paper` (digest
    and interrupt editions), `delivery` (the print attempt state machine),
    `rollout` (the built-in connectors' capabilities).
  - Providers: `http` (requests, responses, a scripted transport) and
    `providers` (Hacker News, Slack, the iMessage bridge, Gmail, Google
    Chat). A pull is a machine: it names the next request, takes the decoded
    reply, and ends in a batch and the next cursor.
- `app/` — the program: USB and TCP I/O, the command line, JSON decoding of
  provider replies, the provider connectors over a real transport, and the
  font rasterizer (floating-point layout).
- `tests/` — tests of the library through its public interface.

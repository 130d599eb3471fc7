# nrf-ble

A Bluetooth Low Energy stack for Nordic nRF52 devices whose protocol logic
is verified with Verus.

- `src/` — the verified library (`nrf_ble`): Link Layer codecs (CRC-24,
  whitening, advertising/data PDUs, CONNECT_REQ LLData, addresses,
  channels, accept list, resolvable private addresses), the AD structure
  codec, SMP legacy pairing, interval timing, the connection state (LL
  control procedures, L2CAP signaling and credit-based channels, ATT server
  and GATT client, fragmentation and reassembly), the advertising /
  scanning / connection state machine, HCI framing and command handling,
  the bond record format and a virtual radio for host-side tests.
- `app/` — the nRF52 peripheral drivers (RADIO, TIMER0, CCM, NVMC) and the
  loops that run the library's state machines on them.
- `tests/` — host-side tests of the library.

AES-128 comes from the `aes` crate; it is the only call the library makes
into another crate, and its contract names the result as a function of
the key and the block.

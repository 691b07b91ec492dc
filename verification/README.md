# lorawan_nvm

What a LoRaWAN 1.0.4 end device keeps across power loss, and how it joins a network, as a library
verified with Verus.

- `crc`: CRC-32, with proofs that it continues over parts and detects any burst of up to four
  bytes.
- `nvm`: the two stored regions, the store interface, the blob format shared by both regions, and
  the identity and session payloads. `nvm::laws` proves what reading gives back of a write and
  which damage is never taken for data.
- `mac`: over-the-air activation. `mac::otaa` builds join requests and handles join accepts,
  `mac::laws` proves that a replay is refused.
- `flash`: the store in the top two pages of a microcontroller's flash, as a state machine that
  names the accesses and takes the driver's reports. `flash::laws` runs it on a modeled flash.
- `radio`, `region`, `types`, `bytes`: buffers and plain values.

What is taken on trust stands in `mac::join`: six calls into the `lorawan` crate, for its frame
parser and its cryptography.

`app/` is the device side: the asynchronous store interface, the STM32WL flash driver and the
random source.

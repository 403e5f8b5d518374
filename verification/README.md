# imxrt-usdhc

A USDHC SD card driver for i.MX RT MCUs, verified with
[Verus](https://github.com/verus-lang/verus).

- SDSC (up to 2 GB) and SDHC (above 2 GB) cards
- 4-bit bus, 25 MHz default speed
- Single-block programmed I/O, no DMA
- Any USDHC instance

## Layout

`src/` is the library. It holds every decision of the driver and touches no
hardware:

| Module | What it is |
|---|---|
| `usdhc` | the driver: bring-up, card properties, reading and writing blocks |
| `card`, `bringup` | the SD protocol, generic over a host; the exchange that brings a card up |
| `csd` | capacity and block addresses |
| `host` | the `SdHost` trait between the protocol and the hardware |
| `inner` | the host operations of the peripheral |
| `transfer`, `history` | a command or block transfer as register accesses; what they are from first to last |
| `sequence`, `clock` | reset, clock and bus width as register accesses; the choice of clock divisors |
| `fake`, `simulation` | a host with a simulated card; what the driver does with that card |

`app/` runs the register accesses on the peripheral and implements
`embedded_sdmmc::BlockDevice`.

Public proof functions named `law_...` state what holds of several operations
together: that a block reads back as it was written, that bringing up a working
card succeeds, that an error leaves both lines reset, that the SD clock is the
fastest that, in whole hertz, does not exceed its target.

## Usage

Pin muxing and clock configuration must be done before constructing the driver.
The caller must ensure that only one context uses a driver at a time.

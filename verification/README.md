# pico_httpd

A simple HTTP server for the Raspberry Pi Pico W. It presents a page that lets you turn the LED on
and off.

The library under `src/` is verified with Verus and does no input or output:

- `write_buf`: a cursor over a borrowed byte buffer
- `text`: prefixes of strings, numbers in decimal
- `request`: request heads, read with `httparse`
- `handler`: which answer a request gets, and what it does to the LED
- `response`: how an answer is framed and cut into blocks
- `server`: the server as a machine that is fed events and names actions
- `machine`: the commands for a PIO state machine, and what they do to it
- `pio_spi`: the commands that bring up the SPI bus and run its transfers

The firmware under `app/` carries actions and commands out. Its build needs, next to
`app/assets.rs`, the pages `index.html` and `style.css`, the PIO program `spi.pio` and the files of
the wireless chip in `cyw43/`. The name of the network and its password are set through environment
variables at build time:

> SSID=*WiFi-network* PASS=*WiFi password* cargo build

As it stands the crate compiles for a host. For the board the executor takes its feature
`platform-cortex-m` in place of `platform-std`, the program is built without `std`, and `Vec` and
`String` need an allocator.

When started it connects to the network and gets an address through DHCP.

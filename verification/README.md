# leaflash

Development CLI for the [LeafKVM](https://www.crowdsupply.com/leafkvm/leafkvm) device, around
a library whose decisions are verified with Verus.

```text
leaflash flash --image <IMAGE> --rootfs-size 256MiB
leaflash uboot --artifact-dir <DIR>
leaflash switch-rootfs [-p a|b]
leaflash tui
leaflash usb <subcommand>
```

## The library

`src/` holds what can be stated and proved: it takes plain values and gives plain values.

- `text` reads and writes short pieces of text.
- `flash` has the sizes and the A/B/userdata layout of an SD card; `gpt` the table entries.
- `plan` turns a request, an image and a card into the steps of a flash. Its laws say that a
  card whose table matches keeps everything but the chosen slots, and that otherwise every
  sector is erased before the new table is written.
- `switch_rootfs` decides which slot the device starts from.
- `uboot_env`, `mtdparts` and `uboot` read an environment image and the partition list in it,
  and plan the flash of the partition files on SPI NOR. `rkfw` reads update images.
- `device` and `usb` choose the device to work on.
- `tui` is the state of the terminal interface and `view` what it shows.

Each function says in its contract what it returns; functions named `law_...` state what holds
of several of them together. What comes from other crates stands behind small functions marked
`external_body` whose comments say what is taken for granted.

## The command

`app/` holds the rest: arguments, files, the USB transport, the terminal. It performs the steps
that the library plans.
